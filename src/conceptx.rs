use vstd::prelude::*;

use crate::text::{remove_all, remove_pattern};
use crate::token::{token_id_of, token_views, Line, Token, TokenView};

verus! {

/// The embedding of a token at one position of a line.
#[derive(Clone, Debug)]
pub struct TokenConecptX<T> {
    pub index: usize,
    pub values: Vec<T>,
}

/// One word of a line, with its embeddings.
#[derive(Clone, Debug)]
pub struct FeatureConecptX<T> {
    pub token: String,
    pub layers: Vec<TokenConecptX<T>>,
}

/// One line of an activation file.
#[derive(Clone, Debug)]
pub struct LineConceptX<T> {
    pub linex_index: usize,
    pub features: Vec<FeatureConecptX<T>>,
}

/// Reads activation files, one line of text per line of the file.
#[derive(Clone, Debug)]
pub struct ConceptXReader {}

impl ConceptXReader {
    pub fn new() -> (r: ConceptXReader) {
        ConceptXReader {}
    }
}

/// A word with the markers of sub-word tokenizers removed, in this order: `##`, the
/// character U+0120, and that character's escaped form.
pub open spec fn clean_word_spec(w: Seq<char>) -> Seq<char> {
    remove_all(remove_all(remove_all(w, "##"@), "\u{120}"@), "\\u0120"@)
}

/// Removes the markers of sub-word tokenizers from a word.
pub fn clean_word(word: &String) -> (r: String)
    ensures
        r@ == clean_word_spec(word@),
{
    let a = remove_pattern(word, "##");
    let b = remove_pattern(&a, "\u{120}");
    remove_pattern(&b, "\\u0120")
}

/// Removes the markers of sub-word tokenizers from every word of a line.
pub fn clean_line<T>(line: &mut LineConceptX<T>)
    ensures
        final(line).linex_index == old(line).linex_index,
        final(line).features@.len() == old(line).features@.len(),
        forall|i: int|
            0 <= i < final(line).features@.len() ==> {
                &&& (#[trigger] final(line).features@[i]).token@ == clean_word_spec(
                    old(line).features@[i].token@,
                )
                &&& final(line).features@[i].layers == old(line).features@[i].layers
            },
{
    let mut i: usize = 0;
    while i < line.features.len()
        invariant
            i <= line.features@.len(),
            line.linex_index == old(line).linex_index,
            line.features@.len() == old(line).features@.len(),
            forall|k: int|
                0 <= k < line.features@.len() ==> (#[trigger] line.features@[k]).layers == old(
                    line,
                ).features@[k].layers,
            forall|k: int|
                0 <= k < i ==> (#[trigger] line.features@[k]).token@ == clean_word_spec(
                    old(line).features@[k].token@,
                ),
            forall|k: int| i <= k < line.features@.len() ==> line.features@[k] == old(line).features@[k],
        decreases line.features@.len() - i,
    {
        let w = clean_word(&line.features[i].token);
        line.features[i].token = w;
        i = i + 1;
    }
}

/// The token for one embedding of a word in line `line_num`.
pub open spec fn layer_token<T>(word: Seq<char>, line_num: usize, layer: TokenConecptX<T>) -> TokenView<T> {
    TokenView {
        word,
        position: layer.index,
        line_num,
        embedding: layer.values@,
        token_id: token_id_of(word, layer.index, line_num),
    }
}

/// The tokens of a sequence of words of line `line_num`, word after word.
pub open spec fn feature_tokens<T>(features: Seq<FeatureConecptX<T>>, line_num: usize) -> Seq<
    TokenView<T>,
>
    decreases features.len(),
{
    if features.len() == 0 {
        Seq::empty()
    } else {
        feature_tokens(features.drop_last(), line_num) + features.last().layers@.map_values(
            |l: TokenConecptX<T>| layer_token(features.last().token@, line_num, l),
        )
    }
}

/// The tokens of one line of an activation file.
pub fn convert_line<T: Copy>(line: &LineConceptX<T>) -> (r: Line<T>)
    ensures
        r.line_num == line.linex_index,
        token_views(r.tokens@) == feature_tokens(line.features@, line.linex_index),
{
    let mut tokens: Vec<Token<T>> = Vec::new();
    let mut i: usize = 0;
    while i < line.features.len()
        invariant
            i <= line.features@.len(),
            token_views(tokens@) == feature_tokens(
                line.features@.subrange(0, i as int),
                line.linex_index,
            ),
        decreases line.features@.len() - i,
    {
        let feature = &line.features[i];
        let ghost f = |l: TokenConecptX<T>| layer_token(feature.token@, line.linex_index, l);
        let mut j: usize = 0;
        while j < feature.layers.len()
            invariant
                i < line.features@.len(),
                feature == line.features@[i as int],
                f == (|l: TokenConecptX<T>| layer_token(feature.token@, line.linex_index, l)),
                j <= feature.layers@.len(),
                token_views(tokens@) == feature_tokens(
                    line.features@.subrange(0, i as int),
                    line.linex_index,
                ) + feature.layers@.subrange(0, j as int).map_values(f),
            decreases feature.layers@.len() - j,
        {
            let layer = &feature.layers[j];
            let t = Token::new(
                feature.token.clone(),
                layer.index,
                line.linex_index,
                crate::token::copy_values(&layer.values),
            );
            assert(token_views(tokens@.push(t)) =~= token_views(tokens@).push(t@));
            assert(feature.layers@.subrange(0, j + 1 as int).map_values(f) =~= feature.layers@.subrange(
                0,
                j as int,
            ).map_values(f).push(f(feature.layers@[j as int])));
            tokens.push(t);
            j = j + 1;
        }
        assert(line.features@.subrange(0, i + 1 as int).drop_last() =~= line.features@.subrange(
            0,
            i as int,
        ));
        assert(feature.layers@.subrange(0, j as int) =~= feature.layers@);
        i = i + 1;
    }
    assert(line.features@.subrange(0, i as int) =~= line.features@);
    Line { tokens, line_num: line.linex_index }
}

/// The lines of tokens of an activation file, in order.
pub fn converter<T: Copy>(activations: &Vec<LineConceptX<T>>) -> (r: Vec<Line<T>>)
    ensures
        r@.len() == activations@.len(),
        forall|i: int|
            0 <= i < r@.len() ==> (#[trigger] r@[i]).line_num == activations@[i].linex_index
                && token_views(r@[i].tokens@) == feature_tokens(
                activations@[i].features@,
                activations@[i].linex_index,
            ),
{
    let mut lines: Vec<Line<T>> = Vec::new();
    let mut i: usize = 0;
    while i < activations.len()
        invariant
            i <= activations@.len(),
            lines@.len() == i,
            forall|k: int|
                0 <= k < i ==> (#[trigger] lines@[k]).line_num == activations@[k].linex_index
                    && token_views(lines@[k].tokens@) == feature_tokens(
                    activations@[k].features@,
                    activations@[k].linex_index,
                ),
        decreases activations@.len() - i,
    {
        lines.push(convert_line(&activations[i]));
        i = i + 1;
    }
    lines
}

} // verus!
