use wafflecone::calculator::check_groups;
use wafflecone::conceptx::{clean_line, clean_word, converter, ConceptXReader, FeatureConecptX, LineConceptX, TokenConecptX};
use wafflecone::error::BiasError;
use wafflecone::seeds::SubspaceSeeds;
use wafflecone::similarity::SimilarityType;
use wafflecone::space::Space;
use wafflecone::text::{contains_word, remove_pattern};
use wafflecone::token::Token;
use wafflecone::web::{version, Web};

#[test]
fn token_id_joins_word_position_and_line() {
    let t = Token::new(String::from("he"), 3, 12, vec![1.0f64]);
    assert_eq!(t.token_id, "he:3:12");
    let t = Token::new(String::from("x"), 0, 1234567, vec![0.5f64]);
    assert_eq!(t.token_id, "x:0:1234567");
}

#[test]
fn clean_word_removes_tokenizer_markers() {
    assert_eq!(clean_word(&String::from("##ing")), "ing");
    assert_eq!(clean_word(&String::from("\u{120}cat")), "cat");
    assert_eq!(clean_word(&String::from("\\u0120dog")), "dog");
    assert_eq!(clean_word(&String::from("plain")), "plain");
    assert_eq!(clean_word(&String::from("")), "");
}

#[test]
fn remove_pattern_matches_from_the_left() {
    assert_eq!(remove_pattern(&String::from("###"), "##"), "#");
    assert_eq!(remove_pattern(&String::from("a##b##"), "##"), "ab");
    assert_eq!(remove_pattern(&String::from("abc"), ""), "abc");
    assert_eq!(remove_pattern(&String::from("abc"), "abcd"), "abc");
}

#[test]
fn contains_word_compares_whole_words() {
    let ws = vec![String::from("he"), String::from("she")];
    assert!(contains_word(&ws, &String::from("she")));
    assert!(!contains_word(&ws, &String::from("h")));
    assert!(!contains_word(&Vec::new(), &String::from("he")));
}

#[test]
fn similarity_type_names() {
    assert_eq!(SimilarityType::from_name("TokenToGroup"), Some(SimilarityType::TokenToGroup));
    assert_eq!(SimilarityType::from_name("GroupToToken"), Some(SimilarityType::GroupToToken));
    assert_eq!(SimilarityType::from_name("tokentogroup"), None);
    assert_eq!(SimilarityType::GroupToToken.name(), "GroupToToken");
}

#[test]
fn converter_makes_one_token_per_embedding() {
    let mut line = LineConceptX {
        linex_index: 4,
        features: vec![
            FeatureConecptX {
                token: String::from("##new"),
                layers: vec![
                    TokenConecptX { index: 0, values: vec![1.0f64, 2.0] },
                    TokenConecptX { index: 1, values: vec![3.0, 4.0] },
                ],
            },
            FeatureConecptX {
                token: String::from("\u{120}york"),
                layers: vec![TokenConecptX { index: 2, values: vec![5.0, 6.0] }],
            },
        ],
    };
    clean_line(&mut line);
    assert_eq!(line.features[0].token, "new");
    assert_eq!(line.features[1].token, "york");
    let lines = converter(&vec![line]);
    assert_eq!(lines.len(), 1);
    assert_eq!(lines[0].line_num, 4);
    let ts = &lines[0].tokens;
    assert_eq!(ts.len(), 3);
    assert_eq!(ts[0].word, "new");
    assert_eq!(ts[0].position, 0);
    assert_eq!(ts[1].position, 1);
    assert_eq!(ts[1].embedding, vec![3.0, 4.0]);
    assert_eq!(ts[2].word, "york");
    assert_eq!(ts[2].line_num, 4);
    assert_eq!(ts[2].token_id, "york:2:4");
    let _reader = ConceptXReader::new();
}

#[test]
fn groups_are_checked_before_computing_bias() {
    let tok = |w: &str, e: Vec<f64>| Token::new(String::from(w), 0, 0, e);
    let neutral = Space::new(vec![tok("cat", vec![0.5, 0.5])], None, vec![0.5, 0.5]).unwrap();
    let none: Vec<Space<f64>> = Vec::new();
    assert_eq!(check_groups(&neutral, &none), Err(BiasError::InsufficientGroups));
    let male = Space::new(
        vec![tok("he", vec![1.0, 0.0])],
        Some(SubspaceSeeds::new(String::from("male"), vec![String::from("he")])),
        vec![1.0, 0.0],
    )
    .unwrap();
    let wide = Space::new(
        vec![tok("she", vec![0.0, 1.0, 0.0])],
        Some(SubspaceSeeds::new(String::from("female"), vec![String::from("she")])),
        vec![0.0, 1.0, 0.0],
    )
    .unwrap();
    assert_eq!(check_groups(&neutral, &vec![male.clone()]), Ok(()));
    assert_eq!(check_groups(&neutral, &vec![male, wide]), Err(BiasError::DimensionMismatch));
}

#[test]
fn web_settings() {
    let web = Web::new(8000);
    assert_eq!(web.port, 8000);
    assert_eq!(web.version, version());
    assert_eq!(version(), "0.1.0");
}
