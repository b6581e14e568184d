use wafflecone::error::BiasError;
use wafflecone::seeds::SubspaceSeeds;
use wafflecone::space::{neutral_exclusions, GlobalSpace, Space, SubSpace};
use wafflecone::token::{Line, Token, TokenOperators};

fn token(word: &str, line_num: usize, position: usize, embedding: Vec<f64>) -> Token<f64> {
    Token::new(String::from(word), position, line_num, embedding)
}

fn three_tokens() -> Vec<Token<f64>> {
    vec![
        token("test", 0, 0, vec![1.0, 2.0, 3.0]),
        token("new", 0, 1, vec![2.0, 3.0, 4.0]),
        token("run", 1, 0, vec![3.0, 4.0, 5.0]),
    ]
}

fn words(ws: &[&str]) -> Vec<String> {
    ws.iter().map(|w| String::from(*w)).collect()
}

#[test]
fn global_space_generator_test_space_builder() {
    let space: GlobalSpace<f64> = GlobalSpace::new(three_tokens(), None);

    assert_eq!(space.tokens.len(), 3);
    assert_eq!(space.tokens[0].word, String::from("test"));
    assert_eq!(space.tokens[0].line_num, 0);
    assert_eq!(space.tokens[0].position, 0);
    assert_eq!(space.tokens[0].embedding.len(), 3);
    assert_eq!(space.tokens[0].embedding[0], 1.0);
    assert_eq!(space.tokens[0].embedding[1], 2.0);
    assert_eq!(space.tokens[0].embedding[2], 3.0);
    assert_eq!(space.tokens[1].word, String::from("new"));
    assert_eq!(space.tokens[1].line_num, 0);
    assert_eq!(space.tokens[1].position, 1);
    assert_eq!(space.tokens[1].embedding.len(), 3);
    assert_eq!(space.tokens[1].embedding[0], 2.0);
    assert_eq!(space.tokens[1].embedding[1], 3.0);
    assert_eq!(space.tokens[1].embedding[2], 4.0);
    assert_eq!(space.tokens[2].word, String::from("run"));
    assert_eq!(space.tokens[2].line_num, 1);
    assert_eq!(space.tokens[2].position, 0);
    assert_eq!(space.tokens[2].embedding.len(), 3);
    assert_eq!(space.tokens[2].embedding[0], 3.0);
    assert_eq!(space.tokens[2].embedding[1], 4.0);
    assert_eq!(space.tokens[2].embedding[2], 5.0);
}

#[test]
fn test_init_from_line() {
    let mut lines: Vec<Line<f64>> = Vec::new();

    let first_line: Vec<Token<f64>> = vec![
        token("test", 0, 0, vec![1.0, 2.0, 3.0]),
        token("new", 0, 1, vec![2.0, 3.0, 4.0]),
    ];

    let second_line: Vec<Token<f64>> = vec![token("run", 1, 0, vec![3.0, 4.0, 5.0])];

    lines.push(Line {
        tokens: first_line,
        line_num: 0,
    });

    lines.push(Line {
        tokens: second_line,
        line_num: 1,
    });

    let space: GlobalSpace<f64> = GlobalSpace::new(lines, None);
    assert_eq!(space.tokens.len(), 3);
    assert_eq!(space.tokens[0].word, String::from("test"));
    assert_eq!(space.tokens[0].line_num, 0);
    assert_eq!(space.tokens[0].position, 0);
    assert_eq!(space.tokens[0].embedding.len(), 3);
    assert_eq!(space.tokens[0].embedding[0], 1.0);
    assert_eq!(space.tokens[0].embedding[1], 2.0);
    assert_eq!(space.tokens[0].embedding[2], 3.0);
    assert_eq!(space.tokens[1].word, String::from("new"));
    assert_eq!(space.tokens[1].line_num, 0);
    assert_eq!(space.tokens[1].position, 1);
    assert_eq!(space.tokens[1].embedding.len(), 3);
    assert_eq!(space.tokens[1].embedding[0], 2.0);
    assert_eq!(space.tokens[1].embedding[1], 3.0);
    assert_eq!(space.tokens[1].embedding[2], 4.0);
    assert_eq!(space.tokens[2].word, String::from("run"));
    assert_eq!(space.tokens[2].line_num, 1);
    assert_eq!(space.tokens[2].position, 0);
    assert_eq!(space.tokens[2].embedding.len(), 3);
    assert_eq!(space.tokens[2].embedding[0], 3.0);
    assert_eq!(space.tokens[2].embedding[1], 4.0);
    assert_eq!(space.tokens[2].embedding[2], 5.0);
}

#[test]
fn global_space_generator_test_get_random_tokens() {
    let space: GlobalSpace<f64> = GlobalSpace::new(three_tokens(), None);

    let token = space.get_random_tokens(1, 1);
    assert_eq!(token.len(), 1);
}

#[test]
fn subspace_generator_test_space_builder() {
    let space = SubSpace::new(
        vec![
            token("test", 0, 0, vec![1.0, 2.0, 3.0]),
            token("new", 0, 1, vec![2.0, 3.0, 4.0]),
        ],
        None,
    );

    assert_eq!(space.tokens.len(), 2);
    assert_eq!(space.tokens[0].word, String::from("test"));
    assert_eq!(space.tokens[0].line_num, 0);
    assert_eq!(space.tokens[0].position, 0);
    assert_eq!(space.tokens[0].embedding.len(), 3);
    assert_eq!(space.tokens[0].embedding[0], 1.0);
    assert_eq!(space.tokens[0].embedding[1], 2.0);
    assert_eq!(space.tokens[0].embedding[2], 3.0);
    assert_eq!(space.tokens[1].word, String::from("new"));
    assert_eq!(space.tokens[1].line_num, 0);
    assert_eq!(space.tokens[1].position, 1);
    assert_eq!(space.tokens[1].embedding.len(), 3);
    assert_eq!(space.tokens[1].embedding[0], 2.0);
    assert_eq!(space.tokens[1].embedding[1], 3.0);
    assert_eq!(space.tokens[1].embedding[2], 4.0);
}

#[test]
fn subspace_generator_test_get_random_tokens() {
    let space: SubSpace<f64> = SubSpace::new(
        vec![
            token("test", 0, 0, vec![1.0, 2.0, 3.0]),
            token("new", 0, 1, vec![2.0, 3.0, 4.0]),
        ],
        Option::from(vec![String::from("test"), String::from("new")]),
    );

    let token = space.get_random_tokens(2, 1);
    assert_eq!(token.len(), 0);
}

#[test]
fn random_tokens_with_negative_count_is_empty() {
    let space: GlobalSpace<f64> = GlobalSpace::new(three_tokens(), None);
    assert_eq!(space.get_random_tokens(-3, 7).len(), 0);
}

#[test]
fn global_space_find_keeps_order() {
    let space: GlobalSpace<f64> = GlobalSpace::new(three_tokens(), None);
    let found = space.find(words(&["run", "test", "absent"]));
    assert_eq!(found.len(), 2);
    assert_eq!(found[0].word, "test");
    assert_eq!(found[1].word, "run");
    assert!(space.find(words(&["absent"])).is_empty());
}

#[test]
fn space_from_no_tokens_is_refused() {
    let empty: Vec<Token<f64>> = Vec::new();
    let r = Space::new(empty, None, vec![0.0, 0.0, 0.0]);
    assert_eq!(r.err(), Some(BiasError::EmptySpace));
}

#[test]
fn space_with_wrong_centroid_length_is_refused() {
    let r = Space::new(three_tokens(), None, vec![2.0, 3.0]);
    assert_eq!(r.err(), Some(BiasError::DimensionMismatch));
}

#[test]
fn global_space_is_named_global() {
    let space = Space::new(three_tokens(), None, vec![2.0, 3.0, 4.0]).unwrap();
    assert_eq!(space.space_name, "Global");
    assert_eq!(space.tokens.len(), 3);
    assert_eq!(space.space_center, vec![2.0, 3.0, 4.0]);
    assert!(space.subspace_seed_words.is_none());
}

#[test]
fn group_space_takes_seed_name_and_words() {
    let seeds = SubspaceSeeds::new(String::from("male"), words(&["he", "boy"]));
    let space = Space::new(
        vec![token("he", 0, 0, vec![1.0, 0.0])],
        Some(seeds),
        vec![1.0, 0.0],
    )
    .unwrap();
    assert_eq!(space.space_name, "male");
    assert_eq!(space.subspace_seed_words, Some(words(&["he", "boy"])));
}

#[test]
fn space_find_and_neutral_tokens_split_the_tokens() {
    let space = Space::new(three_tokens(), None, vec![2.0, 3.0, 4.0]).unwrap();
    let seeds = SubspaceSeeds::new(String::from("g"), words(&["new", "run"]));
    let found = space.find(&seeds);
    let neutral = space.get_neutral_tokens(words(&["new", "run"]));
    assert_eq!(found.len(), 2);
    assert_eq!(found[0].word, "new");
    assert_eq!(found[1].word, "run");
    assert_eq!(neutral.len(), 1);
    assert_eq!(neutral[0].word, "test");
    assert_eq!(neutral[0].token_id, "test:0:0");
}

#[test]
fn reduction_applies_only_when_it_reduces() {
    let space = Space::new(three_tokens(), None, vec![2.0, 3.0, 4.0]).unwrap();
    assert_eq!(space.reduction_target(None), None);
    assert_eq!(space.reduction_target(Some(2)), Some(2));
    assert_eq!(space.reduction_target(Some(3)), None);
    assert_eq!(space.reduction_target(Some(5)), None);
    let two = Space::new(
        vec![token("a", 0, 0, vec![1.0, 2.0, 3.0]), token("b", 0, 1, vec![1.0, 2.0, 3.0])],
        None,
        vec![1.0, 2.0, 3.0],
    )
    .unwrap();
    assert_eq!(two.reduction_target(Some(2)), None);
    assert_eq!(two.reduction_target(Some(1)), Some(1));
    let seeds = SubspaceSeeds::new(String::from("g"), words(&["test"]));
    let group = Space::new(three_tokens(), Some(seeds), vec![2.0, 3.0, 4.0]).unwrap();
    assert_eq!(group.reduction_target(Some(1)), None);
}

#[test]
fn new_embeddings_keep_tokens_and_centroid() {
    let space = Space::new(three_tokens(), None, vec![2.0, 3.0, 4.0]).unwrap();
    let reduced = space
        .clone()
        .with_embeddings(vec![vec![-1.0], vec![0.0], vec![1.0]])
        .unwrap();
    assert_eq!(reduced.space_center, vec![2.0, 3.0, 4.0]);
    assert_eq!(reduced.tokens[2].word, "run");
    assert_eq!(reduced.tokens[2].line_num, 1);
    assert_eq!(reduced.tokens[2].position, 0);
    assert_eq!(reduced.tokens[2].token_id, "run:0:1");
    assert_eq!(reduced.tokens[2].embedding, vec![1.0]);
    let short = space.clone().with_embeddings(vec![vec![1.0]]);
    assert_eq!(short.err(), Some(BiasError::DimensionMismatch));
    let ragged = space.with_embeddings(vec![vec![1.0], vec![1.0, 2.0], vec![3.0]]);
    assert_eq!(ragged.err(), Some(BiasError::DimensionMismatch));
}

#[test]
fn random_tokens_leave_out_seed_words_and_exclusions() {
    let seeds = SubspaceSeeds::new(String::from("g"), words(&["test"]));
    let group = Space::new(three_tokens(), Some(seeds), vec![2.0, 3.0, 4.0]).unwrap();
    let picked = group.get_random_tokens(3, 11, Some(words(&["run"])));
    assert_eq!(picked.len(), 1);
    assert_eq!(picked[0].word, "new");
    let global = Space::new(three_tokens(), None, vec![2.0, 3.0, 4.0]).unwrap();
    assert_eq!(global.get_random_tokens(5, 11, None).len(), 3);
}

#[test]
fn lines_flatten_in_order() {
    let lines = vec![
        Line { tokens: vec![token("a", 0, 0, vec![1.0])], line_num: 0 },
        Line { tokens: Vec::new(), line_num: 1 },
        Line { tokens: vec![token("b", 2, 0, vec![2.0]), token("c", 2, 1, vec![3.0])], line_num: 2 },
    ];
    let all = lines.get_all_tokens();
    let ws: Vec<&str> = all.iter().map(|t| t.word.as_str()).collect();
    assert_eq!(ws, vec!["a", "b", "c"]);
}

#[test]
fn renaming_a_space_keeps_its_tokens() {
    let mut space = Space::new(three_tokens(), None, vec![2.0, 3.0, 4.0]).unwrap();
    space.set_space_name(String::from("renamed"));
    assert_eq!(space.space_name, "renamed");
    assert_eq!(space.tokens.len(), 3);
}

#[test]
fn subspace_random_tokens_leave_out_words_of_interest() {
    let space: SubSpace<f64> = SubSpace::new(three_tokens(), Some(words(&["test", "run"])));
    let picked = space.get_random_tokens(3, 5);
    assert_eq!(picked.len(), 1);
    assert_eq!(picked[0].word, "new");
    let open: SubSpace<f64> = SubSpace::new(three_tokens(), None);
    assert_eq!(open.get_random_tokens(3, 5).len(), 3);
}

#[test]
fn neutral_exclusions_join_caller_and_seed_words() {
    let groups = vec![
        SubspaceSeeds::new(String::from("male"), words(&["he", "boy"])),
        SubspaceSeeds::new(String::from("female"), words(&["she"])),
    ];
    assert_eq!(
        neutral_exclusions(Some(words(&["the"])), &groups),
        words(&["the", "he", "boy", "she"])
    );
    assert_eq!(neutral_exclusions(None, &groups), words(&["he", "boy", "she"]));
    assert!(neutral_exclusions(None, &Vec::new()).is_empty());
}
