//! Tokenization of text into whitespace-delimited tokens, normalization of
//! tokens into word keys, and the ranking of word keys by frequency.
//!
//! Ranking order: a higher count comes first; among equal counts, the word
//! that first appeared earlier in the text comes first.
use vstd::prelude::*;

use crate::models::WordFrequency;
use crate::text::{alphanumeric, chars_of, is_alnum, is_white, lower_of, lowercase, string_of, white_space};

verus! {

/// The tokens finished so far and the token being read, after reading `s`.
pub open spec fn tok_state(s: Seq<char>) -> (Seq<Seq<char>>, Seq<char>)
    decreases s.len(),
{
    if s.len() == 0 {
        (seq![], seq![])
    } else {
        let prev = tok_state(s.drop_last());
        let c = s.last();
        if white_space(c) {
            if prev.1.len() > 0 {
                (prev.0.push(prev.1), seq![])
            } else {
                prev
            }
        } else {
            (prev.0, prev.1.push(c))
        }
    }
}

/// The maximal runs of non-whitespace characters of `s`, in order.
pub open spec fn tokens(s: Seq<char>) -> Seq<Seq<char>> {
    let st = tok_state(s);
    if st.1.len() > 0 {
        st.0.push(st.1)
    } else {
        st.0
    }
}

/// A character kept in a word key: alphanumeric or an apostrophe.
pub open spec fn word_char(c: char) -> bool {
    alphanumeric(c) || c == '\''
}

/// The characters of `t` that are kept in a word key, in order.
pub open spec fn kept(t: Seq<char>) -> Seq<char>
    decreases t.len(),
{
    if t.len() == 0 {
        seq![]
    } else if word_char(t.last()) {
        kept(t.drop_last()).push(t.last())
    } else {
        kept(t.drop_last())
    }
}

/// The word key of a token: its kept characters, lower-cased.
pub open spec fn word_key(t: Seq<char>) -> Seq<char> {
    lower_of(kept(t))
}

/// The non-empty word keys of a sequence of tokens, in order.
pub open spec fn words_of(toks: Seq<Seq<char>>) -> Seq<Seq<char>>
    decreases toks.len(),
{
    if toks.len() == 0 {
        seq![]
    } else if word_key(toks.last()).len() > 0 {
        words_of(toks.drop_last()).push(word_key(toks.last()))
    } else {
        words_of(toks.drop_last())
    }
}

/// The word keys of a text, in order of appearance.
pub open spec fn normalized_words(s: Seq<char>) -> Seq<Seq<char>> {
    words_of(tokens(s))
}

/// Each distinct element of `ws` once, in order of first appearance.
pub open spec fn distinct_words(ws: Seq<Seq<char>>) -> Seq<Seq<char>>
    decreases ws.len(),
{
    if ws.len() == 0 {
        seq![]
    } else if distinct_words(ws.drop_last()).contains(ws.last()) {
        distinct_words(ws.drop_last())
    } else {
        distinct_words(ws.drop_last()).push(ws.last())
    }
}

/// How many elements of `ws` equal `w`.
pub open spec fn occurrences(ws: Seq<Seq<char>>, w: Seq<char>) -> nat
    decreases ws.len(),
{
    if ws.len() == 0 {
        0
    } else {
        occurrences(ws.drop_last(), w) + if ws.last() == w {
            1nat
        } else {
            0nat
        }
    }
}

/// The position of `w` in `d` (meaningful where `d` contains `w`).
pub open spec fn position(d: Seq<Seq<char>>, w: Seq<char>) -> int
    decreases d.len(),
{
    if d.len() == 0 {
        0
    } else if d.last() == w {
        d.len() - 1
    } else {
        position(d.drop_last(), w)
    }
}

/// `a` ranks before `b` among the words `ws`: more occurrences, or as many
/// and an earlier first appearance.
pub open spec fn precedes(ws: Seq<Seq<char>>, a: Seq<char>, b: Seq<char>) -> bool {
    occurrences(ws, a) > occurrences(ws, b) || (occurrences(ws, a) == occurrences(ws, b)
        && position(distinct_words(ws), a) < position(distinct_words(ws), b))
}

/// `r` holds the first `n` distinct words of `ws` in ranking order (all of
/// them if there are fewer), each with its number of occurrences.
pub open spec fn is_top_ranking(ws: Seq<Seq<char>>, n: nat, r: Seq<WordFrequency>) -> bool {
    let d = distinct_words(ws);
    &&& r.len() == if n < d.len() {
        n
    } else {
        d.len()
    }
    &&& forall|i: int|
        0 <= i < r.len() ==> d.contains(#[trigger] r[i].word@) && r[i].count == occurrences(
            ws,
            r[i].word@,
        )
    &&& forall|i: int, j: int|
        0 <= i < j < r.len() ==> precedes(ws, #[trigger] r[i].word@, #[trigger] r[j].word@)
    &&& forall|w: Seq<char>|
        #![trigger d.contains(w)]
        d.contains(w) && (forall|i: int| 0 <= i < r.len() ==> r[i].word@ != w) ==> forall|i: int|
            0 <= i < r.len() ==> precedes(ws, #[trigger] r[i].word@, w)
}

/// The character sequences held by a sequence of character vectors.
pub open spec fn char_views(v: Seq<Vec<char>>) -> Seq<Seq<char>> {
    v.map_values(|x: Vec<char>| x@)
}

/// The character sequences held by a sequence of strings.
pub open spec fn string_views(v: Seq<String>) -> Seq<Seq<char>> {
    v.map_values(|x: String| x@)
}

/// The elements of `distinct_words(ws)` are pairwise different, each sits at
/// its own position, and a word that occurs in `ws` is among them.
proof fn lemma_distinct_words(ws: Seq<Seq<char>>)
    ensures
        forall|i: int, j: int|
            0 <= i < j < distinct_words(ws).len() ==> distinct_words(ws)[i] != distinct_words(
                ws,
            )[j],
        forall|i: int|
            0 <= i < distinct_words(ws).len() ==> position(
                distinct_words(ws),
                #[trigger] distinct_words(ws)[i],
            ) == i,
        forall|w: Seq<char>|
            occurrences(ws, w) > 0 ==> #[trigger] distinct_words(ws).contains(w),
    decreases ws.len(),
{
    if ws.len() > 0 {
        let p = ws.drop_last();
        lemma_distinct_words(p);
        let dp = distinct_words(p);
        let d = distinct_words(ws);
        if !dp.contains(ws.last()) {
            assert forall|i: int| 0 <= i < d.len() implies position(d, #[trigger] d[i]) == i by {
                if i < dp.len() {
                    assert(d.drop_last() == dp);
                    assert(d[i] == dp[i]);
                    assert(d.last() != dp[i]);
                }
            }
        }
        assert forall|w: Seq<char>| occurrences(ws, w) > 0 implies #[trigger] d.contains(w) by {
            if occurrences(p, w) > 0 {
                assert(dp.contains(w));
                let k = choose|k: int| 0 <= k < dp.len() && dp[k] == w;
                assert(d[k] == w);
            } else {
                assert(w == ws.last());
                if !dp.contains(ws.last()) {
                    assert(d[d.len() - 1] == w);
                }
            }
        }
    }
}

proof fn lemma_occurrences_bound(ws: Seq<Seq<char>>, w: Seq<char>)
    ensures
        occurrences(ws, w) <= ws.len(),
    decreases ws.len(),
{
    if ws.len() > 0 {
        lemma_occurrences_bound(ws.drop_last(), w);
    }
}

proof fn lemma_words_bound(toks: Seq<Seq<char>>)
    ensures
        words_of(toks).len() <= toks.len(),
    decreases toks.len(),
{
    if toks.len() > 0 {
        lemma_words_bound(toks.drop_last());
    }
}

/// Splits a character sequence into its maximal runs of non-whitespace characters.
pub fn split_tokens(chars: &Vec<char>) -> (r: Vec<Vec<char>>)
    ensures
        char_views(r@) == tokens(chars@),
{
    let mut toks: Vec<Vec<char>> = Vec::new();
    let mut cur: Vec<char> = Vec::new();
    let mut i: usize = 0;
    while i < chars.len()
        invariant
            i <= chars.len(),
            (char_views(toks@), cur@) == tok_state(chars@.take(i as int)),
        decreases chars.len() - i,
    {
        let ghost pre = chars@.take(i as int);
        assert(chars@.take(i + 1).drop_last() == pre);
        let c = chars[i];
        if is_white(c) {
            if cur.len() > 0 {
                let ghost old_toks = toks@;
                let done = cur;
                toks.push(done);
                assert(char_views(toks@) == char_views(old_toks).push(done@));
                cur = Vec::new();
            }
        } else {
            cur.push(c);
        }
        i = i + 1;
    }
    assert(chars@.take(i as int) == chars@);
    if cur.len() > 0 {
        let ghost old_toks = toks@;
        let ghost last = cur@;
        toks.push(cur);
        assert(char_views(toks@) == char_views(old_toks).push(last));
    }
    toks
}

/// The characters of a token that are alphanumeric or an apostrophe.
pub fn keep_word_chars(token: &Vec<char>) -> (r: Vec<char>)
    ensures
        r@ == kept(token@),
{
    let mut out: Vec<char> = Vec::new();
    let mut i: usize = 0;
    while i < token.len()
        invariant
            i <= token.len(),
            out@ == kept(token@.take(i as int)),
        decreases token.len() - i,
    {
        assert(token@.take(i + 1).drop_last() == token@.take(i as int));
        let c = token[i];
        if is_alnum(c) || c == '\'' {
            out.push(c);
        }
        i = i + 1;
    }
    assert(token@.take(i as int) == token@);
    out
}

/// The word key of a token: its alphanumeric characters and apostrophes, lower-cased.
pub fn word_key_of(token: &Vec<char>) -> (r: String)
    ensures
        r@ == word_key(token@),
{
    let kept_chars = keep_word_chars(token);
    let s = string_of(&kept_chars);
    lowercase(s.as_str())
}

/// Whether entry `i` ranks before entry `j` by count, then by position.
spec fn better(counts: Seq<usize>, i: int, j: int) -> bool {
    counts[i] > counts[j] || (counts[i] == counts[j] && i < j)
}

/// Some position of `order` holds `j`.
spec fn covers(order: Seq<usize>, j: int) -> bool {
    exists|q: int| 0 <= q < order.len() && order[q] == j
}

/// Ranks already normalized words: the `top_n` most frequent distinct words
/// with their counts, most frequent first, ties in order of first appearance.
pub fn rank_words(words: &Vec<String>, top_n: usize) -> (r: Vec<WordFrequency>)
    ensures
        is_top_ranking(string_views(words@), top_n as nat, r@),
        r.len() <= top_n,
        forall|i: int, j: int| 0 <= i < j < r.len() ==> r[i].count >= r[j].count,
{
    let ghost ws = string_views(words@);
    let mut keys: Vec<String> = Vec::new();
    let mut counts: Vec<usize> = Vec::new();
    let mut t: usize = 0;
    while t < words.len()
        invariant
            t <= words.len(),
            ws == string_views(words@),
            keys.len() == counts.len() == distinct_words(ws.take(t as int)).len(),
            forall|i: int|
                0 <= i < keys.len() ==> #[trigger] keys@[i]@ == distinct_words(ws.take(t as int))[i],
            forall|i: int|
                0 <= i < keys.len() ==> #[trigger] counts@[i] == occurrences(
                    ws.take(t as int),
                    distinct_words(ws.take(t as int))[i],
                ),
        decreases words.len() - t,
    {
        let ghost pre = ws.take(t as int);
        let ghost post = ws.take(t + 1);
        let ghost dp = distinct_words(pre);
        assert(post.drop_last() == pre);
        assert(post.last() == words@[t as int]@);
        proof {
            lemma_distinct_words(pre);
            lemma_occurrences_bound(pre, words@[t as int]@);
        }
        let w = &words[t];
        let mut j: usize = 0;
        let mut found = false;
        while j < keys.len() && !found
            invariant
                j <= keys.len(),
                !found ==> forall|q: int| 0 <= q < j ==> keys@[q]@ != w@,
                found ==> j < keys.len() && keys@[j as int]@ == w@,
            decreases keys.len() - j + if found { 0int } else { 1int },
        {
            if keys[j] == *w {
                found = true;
            } else {
                j = j + 1;
            }
        }
        if found {
            assert(dp[j as int] == w@);
            assert(dp.contains(w@));
            assert forall|i: int| 0 <= i < keys.len() && i != j implies dp[i] != w@ by {}
            let c = counts[j];
            counts.set(j, c + 1);
        } else {
            assert forall|x: int| 0 <= x < dp.len() implies dp[x] != w@ by {
                assert(keys@[x]@ == dp[x]);
            }
            assert(!dp.contains(w@));
            assert(occurrences(pre, w@) == 0);
            keys.push(w.clone());
            counts.push(1);
        }
        t = t + 1;
    }
    assert(ws.take(t as int) == ws);
    let ghost d = distinct_words(ws);
    proof {
        lemma_distinct_words(ws);
    }
    let n = keys.len();
    let m = if top_n < n {
        top_n
    } else {
        n
    };
    let mut order: Vec<usize> = Vec::new();
    let mut p: usize = 0;
    while p < n
        invariant
            p <= n,
            order.len() == p,
            forall|q: int| 0 <= q < p ==> order@[q] == q,
        decreases n - p,
    {
        order.push(p);
        p = p + 1;
    }
    assert forall|j: int| 0 <= j < n implies #[trigger] covers(order@, j) by {
        assert(order@[j] == j);
    }
    let mut result: Vec<WordFrequency> = Vec::new();
    let mut k: usize = 0;
    while k < m
        invariant
            n == keys.len() == counts.len() == d.len(),
            m <= n,
            m <= top_n,
            k <= m,
            forall|i: int| 0 <= i < n ==> #[trigger] keys@[i]@ == d[i],
            forall|i: int| 0 <= i < n ==> #[trigger] counts@[i] == occurrences(ws, d[i]),
            order.len() == n,
            forall|q: int| 0 <= q < n ==> 0 <= #[trigger] order@[q] < n,
            forall|q1: int, q2: int| 0 <= q1 < q2 < n ==> order@[q1] != order@[q2],
            forall|j: int| 0 <= j < n ==> #[trigger] covers(order@, j),
            forall|a: int, b: int|
                0 <= a < b < k ==> better(counts@, #[trigger] order@[a] as int, #[trigger] order@[b] as int),
            forall|a: int, q: int|
                0 <= a < k <= q < n ==> better(counts@, #[trigger] order@[a] as int, #[trigger] order@[q] as int),
            result.len() == k,
            forall|a: int|
                0 <= a < k ==> #[trigger] result@[a].word@ == d[order@[a] as int]
                    && result@[a].count == counts@[order@[a] as int],
        decreases m - k,
    {
        let mut best: usize = k;
        let mut q: usize = k + 1;
        while q < n
            invariant
                k < n,
                k <= best < n,
                k < q <= n,
                best < q,
                order.len() == n,
                counts.len() == n,
                forall|x: int| 0 <= x < n ==> 0 <= #[trigger] order@[x] < n,
                forall|x: int|
                    k <= x < q ==> !better(counts@, #[trigger] order@[x] as int, order@[best as int] as int),
            decreases n - q,
        {
            let oq = order[q];
            let ob = order[best];
            if counts[oq] > counts[ob] || (counts[oq] == counts[ob] && oq < ob) {
                best = q;
            }
            q = q + 1;
        }
        let ghost old_order = order@;
        let ok = order[k];
        let ob = order[best];
        order.set(k, ob);
        order.set(best, ok);
        assert forall|j: int| 0 <= j < n implies #[trigger] covers(order@, j) by {
            assert(covers(old_order, j));
            let x0 = choose|x: int| 0 <= x < n && old_order[x] == j;
            if x0 == k {
                assert(order@[best as int] == j);
            } else if x0 == best {
                assert(order@[k as int] == j);
            } else {
                assert(order@[x0] == j);
            }
        }
        assert forall|x: int| k < x < n implies better(counts@, order@[k as int] as int, #[trigger] order@[x] as int) by {
            assert(order@[k as int] != order@[x]);
        }
        result.push(WordFrequency { word: keys[ob].clone(), count: counts[ob] });
        k = k + 1;
    }
    proof {
        assert forall|i: int, j: int| 0 <= i < j < result.len() implies result@[i].count >= result@[j].count by {
            assert(result@[i].word@ == d[order@[i] as int]);
            assert(result@[j].word@ == d[order@[j] as int]);
            assert(better(counts@, order@[i] as int, order@[j] as int));
        }
        assert forall|i: int, j: int| 0 <= i < n && 0 <= j < n && better(counts@, i, j) implies precedes(ws, d[i], d[j]) by {
            assert(position(d, d[i]) == i);
            assert(position(d, d[j]) == j);
        }
        assert forall|i: int| 0 <= i < result.len() implies d.contains(#[trigger] result@[i].word@) by {
            assert(d[order@[i] as int] == result@[i].word@);
        }
        assert forall|w: Seq<char>|
            #![trigger d.contains(w)]
            d.contains(w) && (forall|i: int| 0 <= i < result.len() ==> result@[i].word@ != w) implies forall|i: int|
                0 <= i < result.len() ==> precedes(ws, #[trigger] result@[i].word@, w) by {
            let j = choose|j: int| 0 <= j < n && d[j] == w;
            assert(covers(order@, j));
            let x = choose|x: int| 0 <= x < n && order@[x] == j;
            if x < m {
                assert(result@[x].word@ == w);
            }
            assert forall|i: int| 0 <= i < result.len() implies precedes(ws, #[trigger] result@[i].word@, w) by {
                assert(better(counts@, order@[i] as int, order@[x] as int));
            }
        }
    }
    result
}

/// The `top_n` most frequent word keys of `content`, with their counts,
/// most frequent first; equal counts keep the order of first appearance.
pub fn word_frequencies(content: &str, top_n: usize) -> (r: Vec<WordFrequency>)
    ensures
        is_top_ranking(normalized_words(content@), top_n as nat, r@),
        r.len() <= top_n,
        forall|i: int, j: int| 0 <= i < j < r.len() ==> r[i].count >= r[j].count,
{
    let chars = chars_of(content);
    let toks = split_tokens(&chars);
    let ghost tv = char_views(toks@);
    let mut words: Vec<String> = Vec::new();
    let mut t: usize = 0;
    while t < toks.len()
        invariant
            t <= toks.len(),
            tv == char_views(toks@),
            tv == tokens(content@),
            string_views(words@) == words_of(tv.take(t as int)),
        decreases toks.len() - t,
    {
        assert(tv.take(t + 1).drop_last() == tv.take(t as int));
        assert(tv.take(t + 1).last() == toks@[t as int]@);
        let key = word_key_of(&toks[t]);
        if !key.as_str().is_empty() {
            let ghost old_words = words@;
            let ghost kv = key@;
            words.push(key);
            assert(string_views(words@) == string_views(old_words).push(kv));
        }
        t = t + 1;
    }
    assert(tv.take(t as int) == tv);
    rank_words(&words, top_n)
}

} // verus!
