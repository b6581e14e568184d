use vstd::prelude::*;

use crate::error::BiasError;
use crate::similarity::SimilarityType;
use crate::space::Space;
use crate::text::{lemma_string_views_push, string_views};
use crate::token::{token_views, TokenView};

verus! {

/// Whether every token of `neutral` can be compared with the centroid of every group.
pub open spec fn comparable<T>(neutral: Space<T>, groups: Seq<Space<T>>) -> bool {
    forall|i: int, g: int|
        0 <= i < neutral.tokens@.len() && 0 <= g < groups.len() ==> (
        #[trigger] neutral.tokens@[i]).embedding@.len() == (#[trigger] groups[g]).space_center@.len()
}

/// Checks the inputs of a bias computation: at least one group, and every neutral token
/// of the same dimension as every group centroid.
pub fn check_groups<T>(neutral: &Space<T>, groups: &Vec<Space<T>>) -> (r: Result<(), BiasError>)
    ensures
        groups@.len() == 0 <==> r == Err::<(), BiasError>(BiasError::InsufficientGroups),
        groups@.len() > 0 && !comparable(*neutral, groups@) <==> r == Err::<(), BiasError>(
            BiasError::DimensionMismatch,
        ),
        r is Ok <==> groups@.len() > 0 && comparable(*neutral, groups@),
{
    if groups.len() == 0 {
        return Err(BiasError::InsufficientGroups);
    }
    let mut g: usize = 0;
    while g < groups.len()
        invariant
            g <= groups@.len(),
            forall|i: int, h: int|
                0 <= i < neutral.tokens@.len() && 0 <= h < g ==> (
                #[trigger] neutral.tokens@[i]).embedding@.len() == (
                #[trigger] groups@[h]).space_center@.len(),
        decreases groups@.len() - g,
    {
        let d = groups[g].space_center.len();
        let mut i: usize = 0;
        while i < neutral.tokens.len()
            invariant
                g < groups@.len(),
                d == groups@[g as int].space_center@.len(),
                i <= neutral.tokens@.len(),
                forall|k: int|
                    0 <= k < i ==> (#[trigger] neutral.tokens@[k]).embedding@.len() == d,
                forall|k: int, h: int|
                    0 <= k < neutral.tokens@.len() && 0 <= h < g ==> (
                    #[trigger] neutral.tokens@[k]).embedding@.len() == (
                    #[trigger] groups@[h]).space_center@.len(),
            decreases neutral.tokens@.len() - i,
        {
            if neutral.tokens[i].embedding.len() != d {
                return Err(BiasError::DimensionMismatch);
            }
            i = i + 1;
        }
        g = g + 1;
    }
    Ok(())
}


/// Whether `m` has `rows` rows of `cols` entries each.
pub open spec fn is_matrix<T>(m: Seq<Vec<T>>, rows: nat, cols: nat) -> bool {
    &&& m.len() == rows
    &&& forall|i: int| 0 <= i < rows ==> (#[trigger] m[i])@.len() == cols
}

fn check_matrix<T>(m: &Vec<Vec<T>>, rows: usize, cols: usize) -> (r: bool)
    ensures
        r == is_matrix(m@, rows as nat, cols as nat),
{
    if m.len() != rows {
        return false;
    }
    let mut i: usize = 0;
    while i < m.len()
        invariant
            m@.len() == rows,
            i <= rows,
            forall|k: int| 0 <= k < i ==> (#[trigger] m@[k])@.len() == cols,
        decreases rows - i,
    {
        if m[i].len() != cols {
            return false;
        }
        i = i + 1;
    }
    true
}

/// For each entry of `keys`, the pairs of `names` with the values of one row.
pub type Report<T> = Vec<(String, Vec<(String, T)>)>;

/// Whether `r` pairs each of `keys` with `names` and the matching row of `m`.
pub open spec fn is_row_report<T>(
    r: Seq<(String, Vec<(String, T)>)>,
    keys: Seq<String>,
    names: Seq<String>,
    m: Seq<Vec<T>>,
) -> bool {
    &&& r.len() == keys.len()
    &&& forall|i: int|
        #![trigger r[i]]
        0 <= i < r.len() ==> {
            &&& r[i].0@ == keys[i]@
            &&& r[i].1@.len() == names.len()
            &&& forall|g: int|
                #![trigger r[i].1@[g]]
                0 <= g < names.len() ==> r[i].1@[g].0@ == names[g]@ && r[i].1@[g].1
                    == m[i]@[g]
        }
}

/// Whether `r` pairs each of `names` with `keys` and the matching column of `m`.
pub open spec fn is_column_report<T>(
    r: Seq<(String, Vec<(String, T)>)>,
    keys: Seq<String>,
    names: Seq<String>,
    m: Seq<Vec<T>>,
) -> bool {
    &&& r.len() == names.len()
    &&& forall|g: int|
        #![trigger r[g]]
        0 <= g < r.len() ==> {
            &&& r[g].0@ == names[g]@
            &&& r[g].1@.len() == keys.len()
            &&& forall|i: int|
                #![trigger r[g].1@[i]]
                0 <= i < keys.len() ==> r[g].1@[i].0@ == keys[i]@ && r[g].1@[i].1
                    == m[i]@[g]
        }
}

fn row_report<T: Copy>(keys: &Vec<String>, names: &Vec<String>, m: &Vec<Vec<T>>) -> (r: Report<T>)
    requires
        is_matrix(m@, keys@.len(), names@.len()),
    ensures
        is_row_report(r@, keys@, names@, m@),
{
    let mut r: Report<T> = Vec::new();
    let mut i: usize = 0;
    while i < keys.len()
        invariant
            is_matrix(m@, keys@.len(), names@.len()),
            i <= keys@.len(),
            r@.len() == i,
            forall|k: int|
                #![trigger r@[k]]
                0 <= k < i ==> {
                    &&& r@[k].0@ == keys@[k]@
                    &&& r@[k].1@.len() == names@.len()
                    &&& forall|g: int|
                        #![trigger r@[k].1@[g]]
                        0 <= g < names@.len() ==> r@[k].1@[g].0@ == names@[g]@ && r@[k].1@[g].1
                            == m@[k]@[g]
                },
        decreases keys@.len() - i,
    {
        let mut row: Vec<(String, T)> = Vec::new();
        let mut g: usize = 0;
        while g < names.len()
            invariant
                is_matrix(m@, keys@.len(), names@.len()),
                i < keys@.len(),
                g <= names@.len(),
                row@.len() == g,
                forall|h: int|
                    #![trigger row@[h]]
                    0 <= h < g ==> row@[h].0@ == names@[h]@ && row@[h].1 == m@[i as int]@[h],
            decreases names@.len() - g,
        {
            row.push((names[g].clone(), m[i][g]));
            g = g + 1;
        }
        r.push((keys[i].clone(), row));
        i = i + 1;
    }
    r
}

fn column_report<T: Copy>(keys: &Vec<String>, names: &Vec<String>, m: &Vec<Vec<T>>) -> (r: Report<
    T,
>)
    requires
        is_matrix(m@, keys@.len(), names@.len()),
    ensures
        is_column_report(r@, keys@, names@, m@),
{
    let mut r: Report<T> = Vec::new();
    let mut g: usize = 0;
    while g < names.len()
        invariant
            is_matrix(m@, keys@.len(), names@.len()),
            g <= names@.len(),
            r@.len() == g,
            forall|h: int|
                #![trigger r@[h]]
                0 <= h < g ==> {
                    &&& r@[h].0@ == names@[h]@
                    &&& r@[h].1@.len() == keys@.len()
                    &&& forall|i: int|
                        #![trigger r@[h].1@[i]]
                        0 <= i < keys@.len() ==> r@[h].1@[i].0@ == keys@[i]@ && r@[h].1@[i].1
                            == m@[i]@[h]
                },
        decreases names@.len() - g,
    {
        let mut column: Vec<(String, T)> = Vec::new();
        let mut i: usize = 0;
        while i < keys.len()
            invariant
                is_matrix(m@, keys@.len(), names@.len()),
                g < names@.len(),
                i <= keys@.len(),
                column@.len() == i,
                forall|k: int|
                    #![trigger column@[k]]
                    0 <= k < i ==> column@[k].0@ == keys@[k]@ && column@[k].1 == m@[k]@[g as int],
            decreases keys@.len() - i,
        {
            column.push((keys[i].clone(), m[i][g]));
            i = i + 1;
        }
        r.push((names[g].clone(), column));
        g = g + 1;
    }
    r
}

/// The similarity of every neutral token to every group, its softmax across the groups,
/// and the information that each group contributes to it. Row `i` of each matrix
/// belongs to token `token_ids[i]`, column `g` to group `group_names[g]`.
#[derive(Clone, Debug)]
pub struct Calculator<T> {
    pub model_name: String,
    pub similarity_type: SimilarityType,
    pub token_ids: Vec<String>,
    pub group_names: Vec<String>,
    pub similarity: Vec<Vec<T>>,
    pub softmax: Vec<Vec<T>>,
    pub information: Vec<Vec<T>>,
}

/// The identifiers of a space's tokens.
pub open spec fn ids_of<T>(space: Space<T>) -> Seq<Seq<char>> {
    token_views(space.tokens@).map_values(|t: TokenView<T>| t.token_id)
}

/// The names of a sequence of spaces.
pub open spec fn names_of<T>(spaces: Seq<Space<T>>) -> Seq<Seq<char>> {
    spaces.map_values(|s: Space<T>| s.space_name@)
}

impl<T: Copy> Calculator<T> {
    /// Every matrix has a row per token and a column per group.
    pub open spec fn wf(&self) -> bool {
        let n = self.token_ids@.len();
        let g = self.group_names@.len();
        &&& is_matrix(self.similarity@, n, g)
        &&& is_matrix(self.softmax@, n, g)
        &&& is_matrix(self.information@, n, g)
    }

    /// Gathers the scores computed for the tokens of `bias_free_token_space` against the
    /// centroids of `bias_group_spaces`. Fails without a group, when a token and a
    /// centroid differ in dimension, and when a matrix is not one row per token and one
    /// column per group.
    pub fn assemble(
        model_name: String,
        bias_free_token_space: &Space<T>,
        bias_group_spaces: &Vec<Space<T>>,
        similarity: Vec<Vec<T>>,
        softmax: Vec<Vec<T>>,
        information: Vec<Vec<T>>,
    ) -> (r: Result<Calculator<T>, BiasError>)
        ensures
            bias_group_spaces@.len() == 0 ==> r == Err::<Calculator<T>, BiasError>(
                BiasError::InsufficientGroups,
            ),
            r is Ok <==> {
                let n = bias_free_token_space.tokens@.len();
                let g = bias_group_spaces@.len();
                &&& g > 0
                &&& comparable(*bias_free_token_space, bias_group_spaces@)
                &&& is_matrix(similarity@, n, g)
                &&& is_matrix(softmax@, n, g)
                &&& is_matrix(information@, n, g)
            },
            bias_group_spaces@.len() > 0 && !(r is Ok) ==> r == Err::<Calculator<T>, BiasError>(
                BiasError::DimensionMismatch,
            ),
            r matches Ok(c) ==> {
                &&& c.wf()
                &&& c.model_name == model_name
                &&& c.similarity_type == SimilarityType::TokenToGroup
                &&& string_views(c.token_ids@) == ids_of(*bias_free_token_space)
                &&& string_views(c.group_names@) == names_of(bias_group_spaces@)
                &&& c.similarity == similarity
                &&& c.softmax == softmax
                &&& c.information == information
            },
    {
        check_groups(bias_free_token_space, bias_group_spaces)?;
        let n = bias_free_token_space.tokens.len();
        let g = bias_group_spaces.len();
        if !check_matrix(&similarity, n, g) || !check_matrix(&softmax, n, g) || !check_matrix(
            &information,
            n,
            g,
        ) {
            return Err(BiasError::DimensionMismatch);
        }
        let mut token_ids: Vec<String> = Vec::new();
        let mut i: usize = 0;
        while i < n
            invariant
                n == bias_free_token_space.tokens@.len(),
                i <= n,
                string_views(token_ids@) == ids_of(*bias_free_token_space).subrange(0, i as int),
            decreases n - i,
        {
            let id = bias_free_token_space.tokens[i].token_id.clone();
            proof {
                lemma_string_views_push(token_ids@, id);
                assert(token_views(bias_free_token_space.tokens@)[i as int]
                    == bias_free_token_space.tokens@[i as int]@);
                assert(ids_of(*bias_free_token_space).subrange(0, i + 1 as int) =~= ids_of(
                    *bias_free_token_space,
                ).subrange(0, i as int).push(id@));
            }
            token_ids.push(id);
            i = i + 1;
        }
        let mut group_names: Vec<String> = Vec::new();
        let mut k: usize = 0;
        while k < g
            invariant
                g == bias_group_spaces@.len(),
                k <= g,
                string_views(group_names@) == names_of(bias_group_spaces@).subrange(0, k as int),
            decreases g - k,
        {
            let name = bias_group_spaces[k].space_name.clone();
            proof {
                lemma_string_views_push(group_names@, name);
                assert(names_of(bias_group_spaces@).subrange(0, k + 1 as int) =~= names_of(
                    bias_group_spaces@,
                ).subrange(0, k as int).push(name@));
            }
            group_names.push(name);
            k = k + 1;
        }
        assert(ids_of(*bias_free_token_space).subrange(0, n as int) =~= ids_of(
            *bias_free_token_space,
        ));
        assert(names_of(bias_group_spaces@).subrange(0, g as int) =~= names_of(bias_group_spaces@));
        Ok(
            Calculator {
                model_name,
                similarity_type: SimilarityType::TokenToGroup,
                token_ids,
                group_names,
                similarity,
                softmax,
                information,
            },
        )
    }

    /// For each token, the information that each group contributes to it.
    pub fn get_report_per_token(&self) -> (r: Report<T>)
        requires
            self.wf(),
        ensures
            is_row_report(r@, self.token_ids@, self.group_names@, self.information@),
    {
        row_report(&self.token_ids, &self.group_names, &self.information)
    }

    /// For each group, the information it contributes to each token.
    pub fn get_report_per_group(&self) -> (r: Report<T>)
        requires
            self.wf(),
        ensures
            is_column_report(r@, self.token_ids@, self.group_names@, self.information@),
    {
        column_report(&self.token_ids, &self.group_names, &self.information)
    }

    /// For each token, its raw similarity to each group.
    pub fn get_similarity_report(&self) -> (r: Report<T>)
        requires
            self.wf(),
        ensures
            is_row_report(r@, self.token_ids@, self.group_names@, self.similarity@),
    {
        row_report(&self.token_ids, &self.group_names, &self.similarity)
    }

    /// The name of the model whose embeddings were scored.
    pub fn get_model_name(&self) -> (r: String)
        ensures
            r == self.model_name,
    {
        self.model_name.clone()
    }
}

} // verus!
