use vstd::prelude::*;
use vstd::string::*;

verus! {

/// The direction in which similarities are aggregated.
#[derive(Clone, Copy, Debug, PartialEq, Eq, Structural)]
pub enum SimilarityType {
    /// From each token to every group.
    TokenToGroup,
    /// From each group to every token.
    GroupToToken,
}

impl SimilarityType {
    /// The name of the direction.
    pub open spec fn spec_name(self) -> Seq<char> {
        match self {
            SimilarityType::TokenToGroup => "TokenToGroup"@,
            SimilarityType::GroupToToken => "GroupToToken"@,
        }
    }

    /// The name of the direction.
    pub fn name(&self) -> (r: String)
        ensures
            r@ == self.spec_name(),
    {
        match self {
            SimilarityType::TokenToGroup => String::from_str("TokenToGroup"),
            SimilarityType::GroupToToken => String::from_str("GroupToToken"),
        }
    }

    /// The direction that `s` names, if it names one.
    pub fn from_name(s: &str) -> (r: Option<SimilarityType>)
        ensures
            s@ == "TokenToGroup"@ <==> r == Some(SimilarityType::TokenToGroup),
            s@ == "GroupToToken"@ <==> r == Some(SimilarityType::GroupToToken),
            r matches Some(t) ==> t.spec_name() == s@,
    {
        proof {
            reveal_strlit("TokenToGroup");
            reveal_strlit("GroupToToken");
            assert("TokenToGroup"@[0] != "GroupToToken"@[0]);
        }
        let given = String::from_str(s);
        if given == String::from_str("TokenToGroup") {
            Some(SimilarityType::TokenToGroup)
        } else if given == String::from_str("GroupToToken") {
            Some(SimilarityType::GroupToToken)
        } else {
            None
        }
    }
}

} // verus!
