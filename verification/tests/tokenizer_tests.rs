use tantivy_ex::tokenizer::{
    list_tokenizers, parse_language, plan_text_analyzer, process_pre_tokenized_text,
    register_default_tokenizers, register_ngram_tokenizer, register_regex_tokenizer,
    register_simple_tokenizer, register_text_analyzer, register_tokenizer_with_tracking,
    register_whitespace_tokenizer, AnalyzerPlan, BaseTokenizer, Language, TokenSpan,
    TokenizerError, TokenizerRegistry,
};

fn bare(base: BaseTokenizer) -> AnalyzerPlan {
    AnalyzerPlan { base, lowercase: false, stop_words: None, stemmer: None, remove_long: None }
}

#[test]
fn languages_by_code_and_name() {
    assert_eq!(parse_language("en"), Some(Language::English));
    assert_eq!(parse_language("English"), Some(Language::English));
    assert_eq!(parse_language("FR"), Some(Language::French));
    assert_eq!(parse_language("german"), Some(Language::German));
    assert_eq!(parse_language("es"), Some(Language::Spanish));
    assert_eq!(parse_language("it"), Some(Language::Italian));
    assert_eq!(parse_language("pt"), Some(Language::Portuguese));
    assert_eq!(parse_language("ru"), Some(Language::Russian));
    assert_eq!(parse_language("ar"), Some(Language::Arabic));
    assert_eq!(parse_language("da"), Some(Language::Danish));
    assert_eq!(parse_language("nl"), Some(Language::Dutch));
    assert_eq!(parse_language("dutch"), Some(Language::Dutch));
    assert_eq!(parse_language("fi"), Some(Language::Finnish));
    assert_eq!(parse_language("el"), Some(Language::Greek));
    assert_eq!(parse_language("hu"), Some(Language::Hungarian));
    assert_eq!(parse_language("no"), Some(Language::Norwegian));
    assert_eq!(parse_language("ro"), Some(Language::Romanian));
    assert_eq!(parse_language("sv"), Some(Language::Swedish));
    assert_eq!(parse_language("ta"), Some(Language::Tamil));
    assert_eq!(parse_language("TURKISH"), Some(Language::Turkish));
    assert_eq!(parse_language("klingon"), None);
    assert_eq!(parse_language(""), None);
    assert_eq!(parse_language(" en"), None);
}

#[test]
fn stop_words_exist_for_some_languages() {
    for language in [Language::English, Language::Danish, Language::Swedish, Language::Russian] {
        assert!(language.has_stop_words());
    }
    for language in [Language::Arabic, Language::Greek, Language::Romanian, Language::Tamil, Language::Turkish] {
        assert!(!language.has_stop_words());
    }
}

#[test]
fn plans_an_analyzer() {
    assert_eq!(
        plan_text_analyzer("simple", true, &Some("en".into()), &Some("French".into()), Some(40)),
        Ok(AnalyzerPlan {
            base: BaseTokenizer::Simple,
            lowercase: true,
            stop_words: Some(Language::English),
            stemmer: Some(Language::French),
            remove_long: Some(40),
        })
    );
    assert_eq!(
        plan_text_analyzer("whitespace", false, &None, &None, None),
        Ok(bare(BaseTokenizer::Whitespace))
    );
    assert_eq!(
        plan_text_analyzer("simple", false, &None, &Some("tr".into()), None),
        Ok(AnalyzerPlan {
            base: BaseTokenizer::Simple,
            lowercase: false,
            stop_words: None,
            stemmer: Some(Language::Turkish),
            remove_long: None,
        })
    );
}

#[test]
fn faults_of_a_plan_are_judged_in_order() {
    assert_eq!(
        plan_text_analyzer("fancy", true, &Some("xx".into()), &Some("yy".into()), None),
        Err(TokenizerError::UnsupportedStopWordsLanguage("xx".into()))
    );
    assert_eq!(
        plan_text_analyzer("fancy", true, &Some("tr".into()), &Some("yy".into()), None),
        Err(TokenizerError::NoStopWords("tr".into()))
    );
    assert_eq!(
        plan_text_analyzer("fancy", true, &Some("en".into()), &Some("yy".into()), None),
        Err(TokenizerError::UnsupportedStemmingLanguage("yy".into()))
    );
    assert_eq!(
        plan_text_analyzer("fancy", true, &Some("en".into()), &Some("en".into()), None),
        Err(TokenizerError::UnsupportedBaseTokenizer("fancy".into()))
    );
    assert_eq!(
        plan_text_analyzer("Simple", true, &None, &None, None),
        Err(TokenizerError::UnsupportedBaseTokenizer("Simple".into()))
    );
}

#[test]
fn registering_replaces_an_analyzer_of_the_same_name() {
    let mut registry = TokenizerRegistry::new();
    register_simple_tokenizer(&mut registry, "a");
    register_whitespace_tokenizer(&mut registry, "b");
    register_tokenizer_with_tracking(&mut registry, "a", bare(BaseTokenizer::Whitespace));
    assert_eq!(list_tokenizers(&registry), vec!["a", "b"]);
    assert_eq!(
        *registry.entries(),
        vec![
            ("a".to_string(), bare(BaseTokenizer::Whitespace)),
            ("b".to_string(), bare(BaseTokenizer::Whitespace)),
        ]
    );
    assert_eq!(list_tokenizers(&TokenizerRegistry::new()), Vec::<String>::new());
}

#[test]
fn a_failed_plan_registers_nothing() {
    let mut registry = TokenizerRegistry::new();
    assert_eq!(
        register_text_analyzer(&mut registry, "mine", "simple", true, &Some("xx".into()), &None, None),
        Err(TokenizerError::UnsupportedStopWordsLanguage("xx".into()))
    );
    assert_eq!(*registry.entries(), vec![]);
    assert_eq!(register_text_analyzer(&mut registry, "mine", "simple", true, &None, &None, Some(9)), Ok(()));
    assert_eq!(
        *registry.entries(),
        vec![(
            "mine".to_string(),
            AnalyzerPlan {
                base: BaseTokenizer::Simple,
                lowercase: true,
                stop_words: None,
                stemmer: None,
                remove_long: Some(9),
            }
        )]
    );
}

#[test]
fn pattern_and_gram_tokenizers_are_checked() {
    let mut registry = TokenizerRegistry::new();
    assert_eq!(register_regex_tokenizer(&mut registry, "digits", "[0-9]+"), Ok(()));
    assert_eq!(
        register_regex_tokenizer(&mut registry, "broken", "[0-9"),
        Err(TokenizerError::InvalidPattern("[0-9".into()))
    );
    assert_eq!(register_ngram_tokenizer(&mut registry, "grams", 2, 3, true), Ok(()));
    assert_eq!(register_ngram_tokenizer(&mut registry, "one", 1, 1, false), Ok(()));
    assert_eq!(
        register_ngram_tokenizer(&mut registry, "zero", 0, 3, false),
        Err(TokenizerError::InvalidGramRange { min_gram: 0, max_gram: 3 })
    );
    assert_eq!(
        register_ngram_tokenizer(&mut registry, "crossed", 4, 3, false),
        Err(TokenizerError::InvalidGramRange { min_gram: 4, max_gram: 3 })
    );
    assert_eq!(list_tokenizers(&registry), vec!["digits", "grams", "one"]);
    assert_eq!(registry.entries()[0].1, bare(BaseTokenizer::Regex { pattern: "[0-9]+".into() }));
    assert_eq!(
        registry.entries()[1].1,
        bare(BaseTokenizer::Ngram { min_gram: 2, max_gram: 3, prefix_only: true })
    );
}

#[test]
fn standard_analyzers() {
    let mut registry = TokenizerRegistry::new();
    register_simple_tokenizer(&mut registry, "en_stem");
    register_default_tokenizers(&mut registry);
    assert_eq!(
        list_tokenizers(&registry),
        vec![
            "en_stem", "default", "simple", "keyword", "whitespace", "raw", "fr_stem", "de_stem", "es_stem",
            "it_stem", "pt_stem", "ru_stem", "en_text",
        ]
    );
    assert_eq!(
        registry.entries()[0].1,
        AnalyzerPlan {
            base: BaseTokenizer::Simple,
            lowercase: true,
            stop_words: None,
            stemmer: Some(Language::English),
            remove_long: None,
        }
    );
    assert_eq!(registry.entries()[4].1, bare(BaseTokenizer::Whitespace));
    assert_eq!(
        registry.entries()[12].1,
        AnalyzerPlan {
            base: BaseTokenizer::Simple,
            lowercase: true,
            stop_words: Some(Language::English),
            stemmer: Some(Language::English),
            remove_long: None,
        }
    );
    let again = list_tokenizers(&registry);
    register_default_tokenizers(&mut registry);
    assert_eq!(list_tokenizers(&registry), again);
}

#[test]
fn tokens_get_their_places() {
    let r = process_pre_tokenized_text(vec!["quick".into(), "brown".into(), "fox".into()]);
    assert_eq!(r.text, "quick brown fox");
    assert_eq!(
        r.tokens,
        vec![
            TokenSpan { offset_from: 0, offset_to: 10, position: 0, text: "quick".into(), position_length: 1 },
            TokenSpan { offset_from: 10, offset_to: 20, position: 1, text: "brown".into(), position_length: 1 },
            TokenSpan { offset_from: 20, offset_to: 30, position: 2, text: "fox".into(), position_length: 1 },
        ]
    );
    let none = process_pre_tokenized_text(vec![]);
    assert_eq!(none.text, "");
    assert_eq!(none.tokens, vec![]);
    let one = process_pre_tokenized_text(vec!["a".into()]);
    assert_eq!(one.text, "a");
    let blanks = process_pre_tokenized_text(vec!["".into(), "".into()]);
    assert_eq!(blanks.text, " ");
}
