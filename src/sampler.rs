use vstd::prelude::*;

use crate::text::{contains_word, string_views};
use crate::token::{token_views, Token, TokenView};

verus! {

/// Multiplier of the linear congruential generator that drives the shuffle.
pub const LCG_MUL: u64 = 6364136223846793005;

/// Increment of the linear congruential generator that drives the shuffle.
pub const LCG_INC: u64 = 1442695040888963407;

/// The generator's state after `s`, modulo 2^64.
pub open spec fn next_state(s: u64) -> u64 {
    vstd::wrapping::u64_specs::wrapping_add(
        vstd::wrapping::u64_specs::wrapping_mul(s, LCG_MUL),
        LCG_INC,
    )
}

/// An index below `bound` drawn from the high bits of the state `s`.
pub open spec fn draw(s: u64, bound: nat) -> int {
    ((s >> 33u64) as nat % bound) as int
}

/// The sequence `0, 1, ..., n - 1`.
pub open spec fn identity(n: nat) -> Seq<usize> {
    Seq::new(n, |k: int| k as usize)
}

/// The Fisher-Yates shuffle of `perm`, from position `i - 1` down to position 1.
pub open spec fn shuffle_from(perm: Seq<usize>, state: u64, i: nat) -> Seq<usize>
    decreases i,
{
    if i <= 1 {
        perm
    } else {
        let s = next_state(state);
        let j = draw(s, i);
        shuffle_from(perm.update(i - 1, perm[j]).update(j, perm[i - 1]), s, (i - 1) as nat)
    }
}

/// The permutation of `0..n` that `seed` selects.
pub open spec fn permutation(n: nat, seed: i64) -> Seq<usize> {
    shuffle_from(identity(n), #[verifier::truncate] (seed as u64), n)
}

/// `perm` holds each of `0..n` exactly once.
pub open spec fn is_permutation(perm: Seq<usize>, n: nat) -> bool {
    &&& perm.len() == n
    &&& forall|k: int| 0 <= k < n ==> perm[k] < n
    &&& forall|a: int, b: int| 0 <= a < n && 0 <= b < n && a != b ==> perm[a] != perm[b]
}

proof fn lemma_shuffle_is_permutation(perm: Seq<usize>, state: u64, i: nat, n: nat)
    requires
        is_permutation(perm, n),
        i <= n,
    ensures
        is_permutation(shuffle_from(perm, state, i), n),
    decreases i,
{
    if i > 1 {
        let s = next_state(state);
        let j = draw(s, i);
        let q = perm.update(i - 1, perm[j]).update(j, perm[i - 1]);
        assert(is_permutation(q, n)) by {
            assert forall|a: int, b: int| 0 <= a < n && 0 <= b < n && a != b implies q[a]
                != q[b] by {
                let pa = if a == j { i - 1 } else if a == i - 1 { j } else { a };
                let pb = if b == j { i - 1 } else if b == i - 1 { j } else { b };
                assert(q[a] == perm[pa]);
                assert(q[b] == perm[pb]);
            }
        }
        lemma_shuffle_is_permutation(q, s, (i - 1) as nat, n);
    }
}

/// The permutation of `0..n` that `seed` selects is one.
pub proof fn lemma_permutation(n: nat, seed: i64)
    requires
        n <= usize::MAX,
    ensures
        is_permutation(permutation(n, seed), n),
{
    lemma_shuffle_is_permutation(identity(n), #[verifier::truncate] (seed as u64), n, n);
}

/// Builds the permutation of `0..n` that `seed` selects.
pub fn shuffled_indices(n: usize, seed: i64) -> (r: Vec<usize>)
    ensures
        r@ == permutation(n as nat, seed),
        is_permutation(r@, n as nat),
{
    let mut perm: Vec<usize> = Vec::new();
    let mut k: usize = 0;
    while k < n
        invariant
            k <= n,
            perm@ == identity(k as nat),
        decreases n - k,
    {
        perm.push(k);
        k = k + 1;
        assert(perm@ =~= identity(k as nat));
    }
    let mut state: u64 = #[verifier::truncate] (seed as u64);
    let mut i: usize = n;
    while i > 1
        invariant
            i <= n,
            perm@.len() == n,
            shuffle_from(perm@, state, i as nat) == permutation(n as nat, seed),
        decreases i,
    {
        state = state.wrapping_mul(LCG_MUL).wrapping_add(LCG_INC);
        let j = ((state >> 33u64) % (i as u64)) as usize;
        let a = perm[i - 1];
        let b = perm[j];
        perm.set(i - 1, b);
        perm.set(j, a);
        i = i - 1;
    }
    proof {
        lemma_permutation(n as nat, seed);
    }
    perm
}

/// The words that an optional exclusion list names.
pub open spec fn excluded_words(exclude: Option<Vec<String>>) -> Seq<Seq<char>> {
    match exclude {
        Some(v) => string_views(v@),
        None => Seq::empty(),
    }
}

/// The indices chosen from the first `m` entries of `perm`: each entry is taken, in order,
/// while fewer than `count` are taken and the word at that index is not excluded.
pub open spec fn picked(
    words: Seq<Seq<char>>,
    perm: Seq<usize>,
    exclude: Seq<Seq<char>>,
    count: nat,
    m: nat,
) -> Seq<usize>
    decreases m,
{
    if m == 0 {
        Seq::empty()
    } else {
        let prev = picked(words, perm, exclude, count, (m - 1) as nat);
        let k = perm[m - 1];
        if prev.len() < count && !exclude.contains(words[k as int]) {
            prev.push(k)
        } else {
            prev
        }
    }
}

/// The words of a sequence of tokens.
pub open spec fn words_of<T>(tokens: Seq<TokenView<T>>) -> Seq<Seq<char>> {
    tokens.map_values(|t: TokenView<T>| t.word)
}

/// The indices of the tokens that a sample takes, in the order it takes them.
pub open spec fn sample_indices<T>(
    tokens: Seq<TokenView<T>>,
    count: nat,
    seed: i64,
    exclude: Seq<Seq<char>>,
) -> Seq<usize> {
    picked(
        words_of(tokens),
        permutation(tokens.len(), seed),
        exclude,
        count,
        tokens.len(),
    )
}

/// The tokens that a sample takes, in the order it takes them.
pub open spec fn sampled<T>(
    tokens: Seq<TokenView<T>>,
    count: nat,
    seed: i64,
    exclude: Seq<Seq<char>>,
) -> Seq<TokenView<T>> {
    sample_indices(tokens, count, seed, exclude).map_values(|k: usize| tokens[k as int])
}

proof fn lemma_picked(
    words: Seq<Seq<char>>,
    perm: Seq<usize>,
    exclude: Seq<Seq<char>>,
    count: nat,
    m: nat,
)
    requires
        m <= perm.len(),
        forall|k: int| 0 <= k < perm.len() ==> perm[k] < words.len(),
    ensures
        picked(words, perm, exclude, count, m).len() <= count,
        forall|x: int|
            #![trigger picked(words, perm, exclude, count, m)[x]]
            0 <= x < picked(words, perm, exclude, count, m).len() ==> {
                let k = picked(words, perm, exclude, count, m)[x];
                &&& k < words.len()
                &&& !exclude.contains(words[k as int])
                &&& exists|p: int| 0 <= p < m && #[trigger] perm[p] == k
            },
    decreases m,
{
    if m > 0 {
        lemma_picked(words, perm, exclude, count, (m - 1) as nat);
        let prev = picked(words, perm, exclude, count, (m - 1) as nat);
        let cur = picked(words, perm, exclude, count, m);
        assert forall|x: int| 0 <= x < cur.len() implies exists|p: int|
            0 <= p < m && #[trigger] perm[p] == #[trigger] cur[x] by {
            if x < prev.len() {
                assert(cur[x] == prev[x]);
                let p = choose|p: int| 0 <= p < m - 1 && perm[p] == prev[x];
                assert(0 <= p < m && perm[p] == cur[x]);
            } else {
                assert(perm[m - 1] == cur[x]);
            }
        }
    }
}

proof fn lemma_picked_distinct(
    words: Seq<Seq<char>>,
    perm: Seq<usize>,
    exclude: Seq<Seq<char>>,
    count: nat,
    m: nat,
)
    requires
        is_permutation(perm, words.len()),
        m <= perm.len(),
    ensures
        picked(words, perm, exclude, count, m).no_duplicates(),
    decreases m,
{
    if m > 0 {
        lemma_picked_distinct(words, perm, exclude, count, (m - 1) as nat);
        lemma_picked(words, perm, exclude, count, (m - 1) as nat);
        let prev = picked(words, perm, exclude, count, (m - 1) as nat);
        let k = perm[m - 1];
        assert forall|x: int| 0 <= x < prev.len() implies prev[x] != k by {
            let p = choose|p: int| 0 <= p < m - 1 && perm[p] == prev[x];
            assert(perm[p] != perm[m - 1]);
        }
    }
}

/// Takes up to `count` tokens of `tokens` in the order of the permutation that `seed`
/// selects, skipping tokens whose word is in `exclude`. Fewer come back when the
/// permutation runs out first.
pub fn sample<T: Copy>(
    tokens: &Vec<Token<T>>,
    count: usize,
    seed: i64,
    exclude: &Option<Vec<String>>,
) -> (r: Vec<Token<T>>)
    ensures
        token_views(r@) == sampled(token_views(tokens@), count as nat, seed, excluded_words(*exclude)),
        r@.len() <= count,
        forall|i: int| 0 <= i < r@.len() ==> !excluded_words(*exclude).contains(#[trigger] r@[i].word@),
        sample_indices(token_views(tokens@), count as nat, seed, excluded_words(*exclude)).no_duplicates(),
{
    let ghost views = token_views(tokens@);
    let ghost ex = excluded_words(*exclude);
    let ghost words = words_of(views);
    let perm = shuffled_indices(tokens.len(), seed);
    let mut r: Vec<Token<T>> = Vec::new();
    let mut m: usize = 0;
    let ghost mut idx: Seq<usize> = Seq::empty();
    while m < perm.len()
        invariant
            m <= perm@.len(),
            perm@ == permutation(tokens@.len(), seed),
            is_permutation(perm@, tokens@.len()),
            views == token_views(tokens@),
            words == words_of(views),
            ex == excluded_words(*exclude),
            idx == picked(words, perm@, ex, count as nat, m as nat),
            idx.len() == r@.len(),
            forall|x: int| 0 <= x < idx.len() ==> idx[x] < tokens@.len(),
            token_views(r@) == idx.map_values(|k: usize| views[k as int]),
        decreases perm@.len() - m,
    {
        let k = perm[m];
        proof {
            lemma_picked(words, perm@, ex, count as nat, m as nat);
        }
        if r.len() < count {
            let excluded = match exclude {
                Some(v) => contains_word(v, &tokens[k].word),
                None => false,
            };
            assert(words[k as int] == tokens@[k as int].word@);
            if !excluded {
                let t = tokens[k].copied();
                proof {
                    assert(token_views(r@.push(t)) =~= token_views(r@).push(t@));
                    assert(idx.push(k).map_values(|k: usize| views[k as int]) =~= idx.map_values(
                        |k: usize| views[k as int],
                    ).push(views[k as int]));
                    idx = idx.push(k);
                }
                r.push(t);
            }
        }
        m = m + 1;
    }
    proof {
        lemma_picked(words, perm@, ex, count as nat, m as nat);
        lemma_picked_distinct(words, perm@, ex, count as nat, m as nat);
        assert forall|i: int| 0 <= i < r@.len() implies !ex.contains(#[trigger] r@[i].word@) by {
            assert(token_views(r@)[i] == r@[i]@);
            assert(r@[i].word@ == words[idx[i] as int]);
        }
    }
    r
}

/// Sampling is deterministic: two samples of the same tokens, with the same count, seed
/// and exclusions, take the same tokens in the same order.
pub proof fn lemma_sample_deterministic<T>(
    tokens: Seq<TokenView<T>>,
    again: Seq<TokenView<T>>,
    count: nat,
    seed: i64,
    exclude: Seq<Seq<char>>,
)
    requires
        again == tokens,
    ensures
        sampled(tokens, count, seed, exclude) == sampled(again, count, seed, exclude),
        sample_indices(tokens, count, seed, exclude) == sample_indices(again, count, seed, exclude),
{
}

/// A sample never holds a token whose word is excluded, holds at most `count` tokens,
/// and takes no token twice.
pub proof fn lemma_sample_excludes<T>(
    tokens: Seq<TokenView<T>>,
    count: nat,
    seed: i64,
    exclude: Seq<Seq<char>>,
)
    requires
        tokens.len() <= usize::MAX,
    ensures
        sampled(tokens, count, seed, exclude).len() <= count,
        sample_indices(tokens, count, seed, exclude).no_duplicates(),
        forall|i: int|
            0 <= i < sampled(tokens, count, seed, exclude).len() ==> !exclude.contains(
                (#[trigger] sampled(tokens, count, seed, exclude)[i]).word,
            ),
{
    let words = words_of(tokens);
    let perm = permutation(tokens.len(), seed);
    lemma_permutation(tokens.len(), seed);
    lemma_picked(words, perm, exclude, count, tokens.len());
    lemma_picked_distinct(words, perm, exclude, count, tokens.len());
    let idx = sample_indices(tokens, count, seed, exclude);
    assert forall|i: int|
        0 <= i < sampled(tokens, count, seed, exclude).len() implies !exclude.contains(
        (#[trigger] sampled(tokens, count, seed, exclude)[i]).word,
    ) by {
        assert(words[idx[i] as int] == tokens[idx[i] as int].word);
    }
}

spec fn occurs(perm: Seq<usize>, v: int) -> bool {
    exists|k: int| 0 <= k < perm.len() && perm[k] as int == v
}

proof fn lemma_permutation_covers(perm: Seq<usize>, n: nat)
    requires
        is_permutation(perm, n),
    ensures
        forall|v: int| 0 <= v < n ==> #[trigger] occurs(perm, v),
{
    let s = perm.map_values(|x: usize| x as int);
    assert forall|a: int, b: int| 0 <= a < s.len() && 0 <= b < s.len() && a != b implies s[a]
        != s[b] by {
        assert(perm[a] != perm[b]);
    }
    s.unique_seq_to_set();
    vstd::set_lib::lemma_int_range(0, n as int);
    vstd::seq_lib::seq_to_set_is_finite(s);
    let range = vstd::set_lib::set_int_range(0, n as int);
    assert(s.to_set().subset_of(range)) by {
        assert forall|v: int| s.to_set().contains(v) implies range.contains(v) by {
            let k = choose|k: int| 0 <= k < s.len() && s[k] == v;
            assert(perm[k] < n);
        }
    }
    vstd::set_lib::lemma_subset_equality(s.to_set(), range);
    assert forall|v: int| 0 <= v < n implies #[trigger] occurs(perm, v) by {
        assert(range.contains(v));
        assert(s.to_set().contains(v));
        let k = choose|k: int| 0 <= k < s.len() && s[k] == v;
        assert(perm[k] as int == v);
    }
}

proof fn lemma_picked_complete(
    words: Seq<Seq<char>>,
    perm: Seq<usize>,
    exclude: Seq<Seq<char>>,
    count: nat,
    m: nat,
)
    requires
        m <= perm.len(),
    ensures
        picked(words, perm, exclude, count, m).len() < count ==> forall|p: int|
            0 <= p < m && !exclude.contains(words[perm[p] as int]) ==> picked(
                words,
                perm,
                exclude,
                count,
                m,
            ).contains(#[trigger] perm[p]),
    decreases m,
{
    if m > 0 {
        lemma_picked_complete(words, perm, exclude, count, (m - 1) as nat);
        let prev = picked(words, perm, exclude, count, (m - 1) as nat);
        let cur = picked(words, perm, exclude, count, m);
        if cur.len() < count {
            assert(prev.len() <= cur.len());
            assert forall|p: int|
                0 <= p < m && !exclude.contains(words[perm[p] as int]) implies cur.contains(
                #[trigger] perm[p],
            ) by {
                if p < m - 1 {
                    let x = choose|x: int| 0 <= x < prev.len() && prev[x] == perm[p];
                    assert(cur[x] == prev[x]);
                } else {
                    assert(cur[cur.len() - 1] == perm[p]);
                }
            }
        }
    }
}

/// A sample that comes back with fewer than `count` tokens has taken every token whose
/// word is not excluded.
pub proof fn lemma_sample_complete<T>(
    tokens: Seq<TokenView<T>>,
    count: nat,
    seed: i64,
    exclude: Seq<Seq<char>>,
)
    requires
        tokens.len() <= usize::MAX,
    ensures
        sampled(tokens, count, seed, exclude).len() < count ==> forall|i: int|
            0 <= i < tokens.len() && !exclude.contains(#[trigger] tokens[i].word) ==> sample_indices(
                tokens,
                count,
                seed,
                exclude,
            ).contains(i as usize),
{
    let words = words_of(tokens);
    let perm = permutation(tokens.len(), seed);
    let idx = sample_indices(tokens, count, seed, exclude);
    lemma_permutation(tokens.len(), seed);
    lemma_permutation_covers(perm, tokens.len());
    lemma_picked_complete(words, perm, exclude, count, tokens.len());
    if idx.len() < count {
        assert forall|i: int|
            0 <= i < tokens.len() && !exclude.contains(#[trigger] tokens[i].word) implies idx.contains(
            i as usize,
        ) by {
            assert(occurs(perm, i));
            let k = choose|k: int| 0 <= k < perm.len() && perm[k] as int == i;
            assert(words[perm[k] as int] == tokens[i].word);
            assert(perm[k] == i as usize);
        }
    }
}

} // verus!
