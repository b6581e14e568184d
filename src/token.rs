use vstd::prelude::*;

use crate::text::{decimal, push_char, push_decimal};

verus! {

/// One occurrence of a word in a line of text, with its contextual embedding.
#[derive(Clone, Debug)]
pub struct Token<T> {
    pub word: String,
    pub position: usize,
    pub line_num: usize,
    pub embedding: Vec<T>,
    pub token_id: String,
}

/// The tokens of one line of text.
#[derive(Clone, Debug)]
pub struct Line<T> {
    pub tokens: Vec<Token<T>>,
    pub line_num: usize,
}

/// Mathematical model of a token.
pub struct TokenView<T> {
    pub word: Seq<char>,
    pub position: usize,
    pub line_num: usize,
    pub embedding: Seq<T>,
    pub token_id: Seq<char>,
}

impl<T> View for Token<T> {
    type V = TokenView<T>;

    open spec fn view(&self) -> TokenView<T> {
        TokenView {
            word: self.word@,
            position: self.position,
            line_num: self.line_num,
            embedding: self.embedding@,
            token_id: self.token_id@,
        }
    }
}

/// The models of a sequence of tokens.
pub open spec fn token_views<T>(s: Seq<Token<T>>) -> Seq<TokenView<T>> {
    s.map_values(|t: Token<T>| t@)
}

/// The identifier of a token: its word, position and line number joined by colons.
pub open spec fn token_id_of(word: Seq<char>, position: usize, line_num: usize) -> Seq<char> {
    word + seq![':'] + decimal(position as nat) + seq![':'] + decimal(line_num as nat)
}

proof fn lemma_views_push<T>(s: Seq<Token<T>>, t: Token<T>)
    ensures
        token_views(s.push(t)) == token_views(s).push(t@),
{
    assert(token_views(s.push(t)) =~= token_views(s).push(t@));
}

proof fn lemma_views_prefix<T>(s: Seq<Token<T>>, i: int)
    requires
        0 <= i < s.len(),
    ensures
        token_views(s.subrange(0, i + 1)) == token_views(s.subrange(0, i)).push(s[i]@),
{
    assert(s.subrange(0, i + 1) =~= s.subrange(0, i).push(s[i]));
    lemma_views_push(s.subrange(0, i), s[i]);
}

/// Copies a sequence of plain values.
pub fn copy_values<T: Copy>(v: &Vec<T>) -> (r: Vec<T>)
    ensures
        r@ == v@,
{
    let mut r: Vec<T> = Vec::new();
    let mut i: usize = 0;
    while i < v.len()
        invariant
            i <= v.len(),
            r@ == v@.subrange(0, i as int),
        decreases v.len() - i,
    {
        r.push(v[i]);
        i = i + 1;
        assert(r@ =~= v@.subrange(0, i as int));
    }
    assert(r@ =~= v@);
    r
}

impl<T: Copy> Token<T> {
    /// Creates a token; its identifier is derived from the word, position and line number.
    pub fn new(word: String, position: usize, line_num: usize, embedding: Vec<T>) -> (r: Token<T>)
        ensures
            r.word@ == word@,
            r.position == position,
            r.line_num == line_num,
            r.embedding@ == embedding@,
            r.token_id@ == token_id_of(word@, position, line_num),
    {
        let mut token_id = word.clone();
        push_char(&mut token_id, ':');
        push_decimal(&mut token_id, position);
        push_char(&mut token_id, ':');
        push_decimal(&mut token_id, line_num);
        assert(token_id@ =~= token_id_of(word@, position, line_num));
        Token { word, position, line_num, embedding, token_id }
    }

    /// An exact copy of this token.
    pub fn copied(&self) -> (r: Token<T>)
        ensures
            r@ == self@,
    {
        Token {
            word: self.word.clone(),
            position: self.position,
            line_num: self.line_num,
            embedding: copy_values(&self.embedding),
            token_id: self.token_id.clone(),
        }
    }

    /// The same token with its embedding replaced, as after a change of coordinates.
    pub fn with_embedding(&self, embedding: Vec<T>) -> (r: Token<T>)
        ensures
            r@ == (TokenView { embedding: embedding@, ..self@ }),
    {
        Token {
            word: self.word.clone(),
            position: self.position,
            line_num: self.line_num,
            embedding,
            token_id: self.token_id.clone(),
        }
    }
}

/// The tokens of a sequence of lines, line after line.
pub open spec fn line_tokens<T>(lines: Seq<Line<T>>) -> Seq<TokenView<T>>
    decreases lines.len(),
{
    if lines.len() == 0 {
        Seq::empty()
    } else {
        line_tokens(lines.drop_last()) + token_views(lines.last().tokens@)
    }
}

/// Copies a sequence of tokens.
pub fn copy_tokens<T: Copy>(tokens: &Vec<Token<T>>) -> (r: Vec<Token<T>>)
    ensures
        token_views(r@) == token_views(tokens@),
{
    let mut r: Vec<Token<T>> = Vec::new();
    let mut i: usize = 0;
    while i < tokens.len()
        invariant
            i <= tokens.len(),
            token_views(r@) == token_views(tokens@.subrange(0, i as int)),
        decreases tokens.len() - i,
    {
        let t = tokens[i].copied();
        proof {
            lemma_views_push(r@, t);
            lemma_views_prefix(tokens@, i as int);
        }
        r.push(t);
        i = i + 1;
    }
    assert(tokens@.subrange(0, tokens.len() as int) =~= tokens@);
    r
}

/// A source of tokens: every token it holds, in order.
pub trait TokenOperators<T> {
    spec fn all_tokens(&self) -> Seq<TokenView<T>>;

    fn get_all_tokens(&self) -> (r: Vec<Token<T>>)
        ensures
            token_views(r@) == self.all_tokens(),
    ;
}

impl<T: Copy> TokenOperators<T> for Vec<Line<T>> {
    open spec fn all_tokens(&self) -> Seq<TokenView<T>> {
        line_tokens(self@)
    }

    fn get_all_tokens(&self) -> (r: Vec<Token<T>>) {
        let mut r: Vec<Token<T>> = Vec::new();
        let mut i: usize = 0;
        while i < self.len()
            invariant
                i <= self.len(),
                token_views(r@) == line_tokens(self@.subrange(0, i as int)),
            decreases self.len() - i,
        {
            let line = &self[i];
            let mut j: usize = 0;
            while j < line.tokens.len()
                invariant
                    i < self.len(),
                    line == self@[i as int],
                    j <= line.tokens.len(),
                    token_views(r@) == line_tokens(self@.subrange(0, i as int)) + token_views(
                        line.tokens@.subrange(0, j as int),
                    ),
                decreases line.tokens.len() - j,
            {
                let t = line.tokens[j].copied();
                proof {
                    lemma_views_push(r@, t);
                    lemma_views_prefix(line.tokens@, j as int);
                }
                r.push(t);
                j = j + 1;
                assert(token_views(r@) =~= line_tokens(self@.subrange(0, i as int)) + token_views(
                    line.tokens@.subrange(0, j as int),
                ));
            }
            assert(self@.subrange(0, i + 1 as int).drop_last() =~= self@.subrange(0, i as int));
            assert(line.tokens@.subrange(0, j as int) =~= line.tokens@);
            i = i + 1;
        }
        assert(self@.subrange(0, self.len() as int) =~= self@);
        r
    }
}

impl<T: Copy> TokenOperators<T> for Vec<Token<T>> {
    open spec fn all_tokens(&self) -> Seq<TokenView<T>> {
        token_views(self@)
    }

    fn get_all_tokens(&self) -> (r: Vec<Token<T>>) {
        copy_tokens(self)
    }
}

} // verus!
