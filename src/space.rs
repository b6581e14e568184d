use vstd::prelude::*;
use vstd::string::*;

use crate::error::BiasError;
use crate::sampler::{excluded_words, sample, sampled};
use crate::seeds::SubspaceSeeds;
use crate::text::{
    contains_word, lemma_string_views_prefix, lemma_string_views_push, string_views,
};
use crate::token::{copy_values, token_views, Token, TokenOperators, TokenView};

verus! {

/// Whether the word of `t` is (`keep`) or is not (`!keep`) one of `words`.
pub open spec fn word_filter<T>(words: Seq<Seq<char>>, keep: bool) -> spec_fn(TokenView<T>) -> bool {
    |t: TokenView<T>| words.contains(t.word) == keep
}

/// The tokens whose word is (`keep`) or is not (`!keep`) one of `words`, in their order.
pub open spec fn select_words<T>(
    tokens: Seq<TokenView<T>>,
    words: Seq<Seq<char>>,
    keep: bool,
) -> Seq<TokenView<T>> {
    tokens.filter(word_filter(words, keep))
}

/// Copies the tokens whose word is (`keep`) or is not (`!keep`) one of `words`.
pub fn select_tokens<T: Copy>(tokens: &Vec<Token<T>>, words: &Vec<String>, keep: bool) -> (r: Vec<
    Token<T>,
>)
    ensures
        token_views(r@) == select_words(token_views(tokens@), string_views(words@), keep),
{
    let ghost views = token_views(tokens@);
    let ghost ws = string_views(words@);
    let mut r: Vec<Token<T>> = Vec::new();
    let mut i: usize = 0;
    while i < tokens.len()
        invariant
            i <= tokens.len(),
            views == token_views(tokens@),
            ws == string_views(words@),
            token_views(r@) == select_words(views.subrange(0, i as int), ws, keep),
        decreases tokens.len() - i,
    {
        let found = contains_word(words, &tokens[i].word);
        proof {
            reveal(Seq::filter);
            assert(views.subrange(0, i + 1 as int).drop_last() =~= views.subrange(0, i as int));
            assert(views.subrange(0, i + 1 as int).last() == tokens@[i as int]@);
        }
        if found == keep {
            let t = tokens[i].copied();
            assert(token_views(r@.push(t)) =~= token_views(r@).push(t@));
            r.push(t);
        }
        i = i + 1;
    }
    assert(views.subrange(0, tokens.len() as int) =~= views);
    r
}

/// The concatenation of two word lists.
pub fn join_words(a: &Vec<String>, b: &Vec<String>) -> (r: Vec<String>)
    ensures
        string_views(r@) == string_views(a@) + string_views(b@),
{
    let mut r: Vec<String> = Vec::new();
    let mut i: usize = 0;
    while i < a.len()
        invariant
            i <= a.len(),
            string_views(r@) == string_views(a@.subrange(0, i as int)),
        decreases a.len() - i,
    {
        let w = a[i].clone();
        proof {
            lemma_string_views_push(r@, w);
            lemma_string_views_prefix(a@, i as int);
        }
        r.push(w);
        i = i + 1;
    }
    let mut j: usize = 0;
    while j < b.len()
        invariant
            i == a.len(),
            j <= b.len(),
            string_views(r@) == string_views(a@.subrange(0, i as int)) + string_views(
                b@.subrange(0, j as int),
            ),
        decreases b.len() - j,
    {
        let w = b[j].clone();
        proof {
            lemma_string_views_push(r@, w);
            lemma_string_views_prefix(b@, j as int);
        }
        r.push(w);
        j = j + 1;
        assert(string_views(r@) =~= string_views(a@.subrange(0, i as int)) + string_views(
            b@.subrange(0, j as int),
        ));
    }
    assert(a@.subrange(0, i as int) =~= a@);
    assert(b@.subrange(0, j as int) =~= b@);
    r
}

/// Whether every token of `tokens` has an embedding of length `d`.
pub open spec fn all_of_dimension<T>(tokens: Seq<TokenView<T>>, d: nat) -> bool {
    forall|i: int| 0 <= i < tokens.len() ==> (#[trigger] tokens[i]).embedding.len() == d
}

/// Whether every token has an embedding of length `d`.
pub fn check_dimension<T>(tokens: &Vec<Token<T>>, d: usize) -> (r: bool)
    ensures
        r == all_of_dimension(token_views(tokens@), d as nat),
{
    let mut i: usize = 0;
    while i < tokens.len()
        invariant
            i <= tokens.len(),
            all_of_dimension(token_views(tokens@.subrange(0, i as int)), d as nat),
        decreases tokens.len() - i,
    {
        if tokens[i].embedding.len() != d {
            assert(token_views(tokens@)[i as int] == tokens@[i as int]@);
            return false;
        }
        i = i + 1;
        assert forall|k: int| 0 <= k < i implies (#[trigger] token_views(
            tokens@.subrange(0, i as int),
        )[k]).embedding.len() == d by {
            if k < i - 1 {
                assert(token_views(tokens@.subrange(0, i - 1 as int))[k] == tokens@[k]@);
            }
        }
    }
    assert(tokens@.subrange(0, tokens.len() as int) =~= tokens@);
    true
}

/// A named set of tokens with the centroid of their unreduced embeddings.
#[derive(Clone, Debug)]
pub struct Space<T> {
    pub space_name: String,
    pub tokens: Vec<Token<T>>,
    pub space_center: Vec<T>,
    pub subspace_seed_words: Option<Vec<String>>,
}

impl<T: Copy> Space<T> {
    /// A space holds at least one token, and all its tokens have one dimension.
    pub open spec fn wf(&self) -> bool {
        &&& self.tokens@.len() > 0
        &&& all_of_dimension(token_views(self.tokens@), self.tokens@[0].embedding@.len())
    }

    /// The words that the space's seed group names, if any.
    pub open spec fn seed_words(&self) -> Seq<Seq<char>> {
        excluded_words(self.subspace_seed_words)
    }

    /// Builds a space from the tokens of `items` and the centroid of their embeddings.
    /// Without seeds it is the global space, named "Global"; with seeds it takes the group's name and
    /// words. Fails on no tokens, and on tokens whose dimension differs from the
    /// centroid's.
    pub fn new<I: TokenOperators<T>>(
        items: I,
        subspace_seeds: Option<SubspaceSeeds>,
        space_center: Vec<T>,
    ) -> (r: Result<Space<T>, BiasError>)
        ensures
            items.all_tokens().len() == 0 ==> r == Err::<Space<T>, BiasError>(
                BiasError::EmptySpace,
            ),
            items.all_tokens().len() > 0 && !all_of_dimension(
                items.all_tokens(),
                space_center@.len(),
            ) ==> r == Err::<Space<T>, BiasError>(BiasError::DimensionMismatch),
            items.all_tokens().len() > 0 && all_of_dimension(
                items.all_tokens(),
                space_center@.len(),
            ) ==> r is Ok,
            r matches Ok(s) ==> {
                &&& s.wf()
                &&& token_views(s.tokens@) == items.all_tokens()
                &&& s.space_center@ == space_center@
                &&& match subspace_seeds {
                    Some(g) => s.space_name@ == g.name@ && s.subspace_seed_words == Some(g.seeds),
                    None => s.space_name@ == "Global"@ && s.subspace_seed_words is None,
                }
            },
    {
        let tokens = items.get_all_tokens();
        if tokens.len() == 0 {
            return Err(BiasError::EmptySpace);
        }
        if !check_dimension(&tokens, space_center.len()) {
            return Err(BiasError::DimensionMismatch);
        }
        assert(token_views(tokens@)[0] == tokens@[0]@);
        let (space_name, subspace_seed_words) = match subspace_seeds {
            Some(g) => (g.name, Some(g.seeds)),
            None => (String::from_str("Global"), None),
        };
        Ok(Space { space_name, tokens, space_center, subspace_seed_words })
    }

    pub fn set_space_name(&mut self, name: String)
        ensures
            final(self).space_name == name,
            final(self).tokens == old(self).tokens,
            final(self).space_center == old(self).space_center,
            final(self).subspace_seed_words == old(self).subspace_seed_words,
    {
        self.space_name = name;
    }

    /// The dimension of the space's tokens.
    pub fn dimension(&self) -> (r: usize)
        requires
            self.wf(),
        ensures
            r == self.tokens@[0].embedding@.len(),
    {
        self.tokens[0].embedding.len()
    }

    /// The target dimension of a principal component reduction of this space, when one
    /// applies: only a space without seeds is reduced, and only to fewer dimensions
    /// than it has and fewer than it has tokens.
    pub fn reduction_target(&self, pca_dimension: Option<usize>) -> (r: Option<usize>)
        requires
            self.wf(),
        ensures
            r == (match pca_dimension {
                Some(k) => if self.subspace_seed_words is None && k < self.tokens@[0].embedding@.len()
                    && k < self.tokens@.len() {
                    Some(k)
                } else {
                    None
                },
                None => None,
            }),
    {
        match pca_dimension {
            Some(k) => {
                if self.subspace_seed_words.is_none() && k < self.dimension() && k
                    < self.tokens.len() {
                    Some(k)
                } else {
                    None
                }
            },
            None => None,
        }
    }

    /// The space with its token embeddings replaced by `embeddings`, row for row, as
    /// after a reduction; the centroid is kept. Fails when the rows do not match the
    /// tokens one for one or differ in length.
    pub fn with_embeddings(self, embeddings: Vec<Vec<T>>) -> (r: Result<Space<T>, BiasError>)
        requires
            self.wf(),
        ensures
            (embeddings@.len() == self.tokens@.len() && forall|i: int|
                0 <= i < embeddings@.len() ==> (#[trigger] embeddings@[i])@.len()
                    == embeddings@[0]@.len()) <==> r is Ok,
            !(r is Ok) ==> r == Err::<Space<T>, BiasError>(BiasError::DimensionMismatch),
            r matches Ok(s) ==> {
                &&& s.wf()
                &&& s.space_name == self.space_name
                &&& s.space_center == self.space_center
                &&& s.subspace_seed_words == self.subspace_seed_words
                &&& s.tokens@.len() == self.tokens@.len()
                &&& forall|i: int|
                    0 <= i < s.tokens@.len() ==> (#[trigger] s.tokens@[i])@ == (TokenView {
                        embedding: embeddings@[i]@,
                        ..self.tokens@[i]@
                    })
            },
    {
        if embeddings.len() != self.tokens.len() {
            return Err(BiasError::DimensionMismatch);
        }
        let d = embeddings[0].len();
        let mut tokens: Vec<Token<T>> = Vec::new();
        let mut i: usize = 0;
        while i < self.tokens.len()
            invariant
                i <= self.tokens@.len(),
                embeddings@.len() == self.tokens@.len(),
                d == embeddings@[0]@.len(),
                forall|k: int| 0 <= k < i ==> (#[trigger] embeddings@[k])@.len() == d,
                tokens@.len() == i,
                forall|k: int|
                    0 <= k < i ==> (#[trigger] tokens@[k])@ == (TokenView {
                        embedding: embeddings@[k]@,
                        ..self.tokens@[k]@
                    }),
            decreases self.tokens@.len() - i,
        {
            if embeddings[i].len() != d {
                return Err(BiasError::DimensionMismatch);
            }
            let row = copy_values(&embeddings[i]);
            tokens.push(self.tokens[i].with_embedding(row));
            i = i + 1;
        }
        let r = Space {
            space_name: self.space_name,
            tokens,
            space_center: self.space_center,
            subspace_seed_words: self.subspace_seed_words,
        };
        assert(token_views(r.tokens@)[0] == r.tokens@[0]@);
        assert forall|k: int| 0 <= k < token_views(r.tokens@).len() implies (
        #[trigger] token_views(r.tokens@)[k]).embedding.len() == r.tokens@[0].embedding@.len() by {
            assert(token_views(r.tokens@)[k] == r.tokens@[k]@);
        }
        Ok(r)
    }

    /// The tokens whose word is one of the seed group's words, in order.
    pub fn find(&self, subspace_seed: &SubspaceSeeds) -> (r: Vec<Token<T>>)
        ensures
            token_views(r@) == select_words(
                token_views(self.tokens@),
                string_views(subspace_seed.seeds@),
                true,
            ),
    {
        select_tokens(&self.tokens, &subspace_seed.seeds, true)
    }

    /// The tokens whose word is not in `exclude`, in order.
    pub fn get_neutral_tokens(&self, exclude: Vec<String>) -> (r: Vec<Token<T>>)
        ensures
            token_views(r@) == select_words(token_views(self.tokens@), string_views(exclude@), false),
    {
        select_tokens(&self.tokens, &exclude, false)
    }

    /// A reproducible sample of up to `count` tokens that leaves out the words in
    /// `exclude` and the space's own seed words.
    pub fn get_random_tokens(&self, count: usize, seed: i64, exclude: Option<Vec<String>>) -> (r:
        Vec<Token<T>>)
        ensures
            token_views(r@) == sampled(
                token_views(self.tokens@),
                count as nat,
                seed,
                excluded_words(exclude) + self.seed_words(),
            ),
            forall|i: int|
                0 <= i < r@.len() ==> !excluded_words(exclude).contains(#[trigger] r@[i].word@)
                    && !self.seed_words().contains(r@[i].word@),
    {
        let empty: Vec<String> = Vec::new();
        let given = match &exclude {
            Some(v) => v,
            None => &empty,
        };
        let own = match &self.subspace_seed_words {
            Some(v) => v,
            None => &empty,
        };
        let all = join_words(given, own);
        let ghost ex = excluded_words(exclude);
        assert(string_views(all@) =~= excluded_words(exclude) + self.seed_words());
        let r = sample(&self.tokens, count, seed, &Some(all));
        assert forall|i: int| 0 <= i < r@.len() implies !ex.contains(#[trigger] r@[i].word@)
            && !self.seed_words().contains(r@[i].word@) by {
            let w = r@[i].word@;
            if ex.contains(w) {
                let k = choose|k: int| 0 <= k < ex.len() && ex[k] == w;
                assert(string_views(all@)[k] == w);
            }
            if self.seed_words().contains(w) {
                let k = choose|k: int| 0 <= k < self.seed_words().len() && self.seed_words()[k] == w;
                assert(string_views(all@)[ex.len() + k] == w);
            }
        }
        r
    }
}


/// The number of tokens that a signed request asks for: none when it is negative.
pub open spec fn requested_count(num: i64) -> nat {
    if num <= 0 {
        0
    } else if num as nat > usize::MAX {
        usize::MAX as nat
    } else {
        num as nat
    }
}

fn to_count(num: i64) -> (r: usize)
    ensures
        r as nat == requested_count(num),
{
    if num <= 0 {
        0
    } else if num as u64 > usize::MAX as u64 {
        usize::MAX
    } else {
        num as usize
    }
}

/// A space of all the tokens of a text, without seed words.
#[derive(Clone, Debug)]
pub struct GlobalSpace<T> {
    pub tokens: Vec<Token<T>>,
}

impl<T: Copy> GlobalSpace<T> {
    pub fn new<I: TokenOperators<T>>(items: I, _words_of_interests: Option<Vec<String>>) -> (r:
        GlobalSpace<T>)
        ensures
            token_views(r.tokens@) == items.all_tokens(),
    {
        GlobalSpace { tokens: items.get_all_tokens() }
    }

    /// The tokens whose word is one of `target_words`, in order.
    pub fn find(&self, target_words: Vec<String>) -> (r: Vec<Token<T>>)
        ensures
            token_views(r@) == select_words(
                token_views(self.tokens@),
                string_views(target_words@),
                true,
            ),
    {
        select_tokens(&self.tokens, &target_words, true)
    }

    /// A reproducible sample of up to `num` tokens.
    pub fn get_random_tokens(&self, num: i64, random_seed: i64) -> (r: Vec<Token<T>>)
        ensures
            token_views(r@) == sampled(
                token_views(self.tokens@),
                requested_count(num),
                random_seed,
                Seq::empty(),
            ),
    {
        sample(&self.tokens, to_count(num), random_seed, &None)
    }
}

/// A space of the tokens of a group of words of interest.
#[derive(Clone, Debug)]
pub struct SubSpace<T> {
    pub tokens: Vec<Token<T>>,
    pub words_of_interests: Option<Vec<String>>,
}

impl<T: Copy> SubSpace<T> {
    pub fn new<I: TokenOperators<T>>(items: I, words_of_interests: Option<Vec<String>>) -> (r:
        SubSpace<T>)
        ensures
            token_views(r.tokens@) == items.all_tokens(),
            r.words_of_interests == words_of_interests,
    {
        SubSpace { tokens: items.get_all_tokens(), words_of_interests }
    }

    /// The tokens whose word is one of `target_words`, in order.
    pub fn find(&self, target_words: Vec<String>) -> (r: Vec<Token<T>>)
        ensures
            token_views(r@) == select_words(
                token_views(self.tokens@),
                string_views(target_words@),
                true,
            ),
    {
        select_tokens(&self.tokens, &target_words, true)
    }

    /// A reproducible sample of up to `num` tokens that leaves out the words of interest.
    pub fn get_random_tokens(&self, num: i64, random_seed: i64) -> (r: Vec<Token<T>>)
        ensures
            token_views(r@) == sampled(
                token_views(self.tokens@),
                requested_count(num),
                random_seed,
                excluded_words(self.words_of_interests),
            ),
            forall|i: int|
                0 <= i < r@.len() ==> !excluded_words(self.words_of_interests).contains(
                    #[trigger] r@[i].word@,
                ),
    {
        let own: Option<Vec<String>> = match &self.words_of_interests {
            Some(v) => Some(join_words(v, &Vec::new())),
            None => None,
        };
        assert(excluded_words(own) =~= excluded_words(self.words_of_interests));
        sample(&self.tokens, to_count(num), random_seed, &own)
    }
}

/// The words of every seed group, group after group.
pub open spec fn seed_group_words(groups: Seq<SubspaceSeeds>) -> Seq<Seq<char>>
    decreases groups.len(),
{
    if groups.len() == 0 {
        Seq::empty()
    } else {
        seed_group_words(groups.drop_last()) + string_views(groups.last().seeds@)
    }
}

/// The words to leave out of the neutral space: the caller's exclusions, then the words
/// of every seed group.
pub fn neutral_exclusions(exclude: Option<Vec<String>>, groups: &Vec<SubspaceSeeds>) -> (r: Vec<
    String,
>)
    ensures
        string_views(r@) == excluded_words(exclude) + seed_group_words(groups@),
{
    let mut r: Vec<String> = match exclude {
        Some(v) => v,
        None => Vec::new(),
    };
    let ghost given = excluded_words(exclude);
    assert(string_views(r@) =~= given);
    let mut i: usize = 0;
    while i < groups.len()
        invariant
            i <= groups@.len(),
            string_views(r@) == given + seed_group_words(groups@.subrange(0, i as int)),
        decreases groups@.len() - i,
    {
        r = join_words(&r, &groups[i].seeds);
        assert(groups@.subrange(0, i + 1 as int).drop_last() =~= groups@.subrange(0, i as int));
        i = i + 1;
    }
    assert(groups@.subrange(0, i as int) =~= groups@);
    r
}

} // verus!
