//! Text analyzers: what an analyzer is made of, and the registry of the
//! analyzers by name.
use vstd::prelude::*;
use crate::engine::{ngram_accepted, token_pattern_compiles, token_pattern_valid};
use crate::text::{
    copy_text, lowercase_of, opt_text, push_text, same_text, string_of, texts, to_lowercase,
};

verus! {

/// A language that words can be stemmed in.
#[derive(Clone, Copy, Debug, PartialEq, Eq, Structural)]
pub enum Language {
    Arabic,
    Danish,
    Dutch,
    English,
    Finnish,
    French,
    German,
    Greek,
    Hungarian,
    Italian,
    Norwegian,
    Portuguese,
    Romanian,
    Russian,
    Spanish,
    Swedish,
    Tamil,
    Turkish,
}

impl Language {
    /// Whether a list of stop words exists for the language.
    pub open spec fn stop_words(self) -> bool {
        !(self == Language::Arabic || self == Language::Greek || self == Language::Romanian || self
            == Language::Tamil || self == Language::Turkish)
    }

    pub fn has_stop_words(&self) -> (r: bool)
        ensures
            r == self.stop_words(),
    {
        match self {
            Language::Arabic | Language::Greek | Language::Romanian | Language::Tamil
            | Language::Turkish => false,
            _ => true,
        }
    }
}

/// The language that a lowercase word names: its two-letter code or its
/// English name.
pub open spec fn language_of_word(low: Seq<char>) -> Option<Language> {
    if low == "en"@ || low == "english"@ {
        Some(Language::English)
    } else if low == "fr"@ || low == "french"@ {
        Some(Language::French)
    } else if low == "de"@ || low == "german"@ {
        Some(Language::German)
    } else if low == "es"@ || low == "spanish"@ {
        Some(Language::Spanish)
    } else if low == "it"@ || low == "italian"@ {
        Some(Language::Italian)
    } else if low == "pt"@ || low == "portuguese"@ {
        Some(Language::Portuguese)
    } else if low == "ru"@ || low == "russian"@ {
        Some(Language::Russian)
    } else if low == "ar"@ || low == "arabic"@ {
        Some(Language::Arabic)
    } else if low == "da"@ || low == "danish"@ {
        Some(Language::Danish)
    } else if low == "nl"@ || low == "dutch"@ {
        Some(Language::Dutch)
    } else if low == "fi"@ || low == "finnish"@ {
        Some(Language::Finnish)
    } else if low == "el"@ || low == "greek"@ {
        Some(Language::Greek)
    } else if low == "hu"@ || low == "hungarian"@ {
        Some(Language::Hungarian)
    } else if low == "no"@ || low == "norwegian"@ {
        Some(Language::Norwegian)
    } else if low == "ro"@ || low == "romanian"@ {
        Some(Language::Romanian)
    } else if low == "sv"@ || low == "swedish"@ {
        Some(Language::Swedish)
    } else if low == "ta"@ || low == "tamil"@ {
        Some(Language::Tamil)
    } else if low == "tr"@ || low == "turkish"@ {
        Some(Language::Turkish)
    } else {
        None
    }
}

/// The language that a word names, whatever its letter case.
pub open spec fn language_of(lang: Seq<char>) -> Option<Language> {
    language_of_word(lowercase_of(lang))
}

/// Reads the name of a language, given in lowercase.
pub fn language_from_word(low: &str) -> (r: Option<Language>)
    ensures
        r == language_of_word(low@),
{
    if same_text(low, "en") || same_text(low, "english") {
        Some(Language::English)
    } else if same_text(low, "fr") || same_text(low, "french") {
        Some(Language::French)
    } else if same_text(low, "de") || same_text(low, "german") {
        Some(Language::German)
    } else if same_text(low, "es") || same_text(low, "spanish") {
        Some(Language::Spanish)
    } else if same_text(low, "it") || same_text(low, "italian") {
        Some(Language::Italian)
    } else if same_text(low, "pt") || same_text(low, "portuguese") {
        Some(Language::Portuguese)
    } else if same_text(low, "ru") || same_text(low, "russian") {
        Some(Language::Russian)
    } else if same_text(low, "ar") || same_text(low, "arabic") {
        Some(Language::Arabic)
    } else if same_text(low, "da") || same_text(low, "danish") {
        Some(Language::Danish)
    } else if same_text(low, "nl") || same_text(low, "dutch") {
        Some(Language::Dutch)
    } else if same_text(low, "fi") || same_text(low, "finnish") {
        Some(Language::Finnish)
    } else if same_text(low, "el") || same_text(low, "greek") {
        Some(Language::Greek)
    } else if same_text(low, "hu") || same_text(low, "hungarian") {
        Some(Language::Hungarian)
    } else if same_text(low, "no") || same_text(low, "norwegian") {
        Some(Language::Norwegian)
    } else if same_text(low, "ro") || same_text(low, "romanian") {
        Some(Language::Romanian)
    } else if same_text(low, "sv") || same_text(low, "swedish") {
        Some(Language::Swedish)
    } else if same_text(low, "ta") || same_text(low, "tamil") {
        Some(Language::Tamil)
    } else if same_text(low, "tr") || same_text(low, "turkish") {
        Some(Language::Turkish)
    } else {
        None
    }
}

/// Reads the name of a language.
pub fn parse_language(lang: &str) -> (r: Option<Language>)
    ensures
        r == language_of(lang@),
{
    let low = to_lowercase(lang);
    language_from_word(low.as_str())
}

/// How a text is first cut into tokens.
#[derive(Debug, PartialEq)]
pub enum BaseTokenizer {
    /// At every character that is no letter or digit.
    Simple,
    /// At whitespace.
    Whitespace,
    /// By the matches of a pattern.
    Regex { pattern: String },
    /// Into runs of `min_gram` to `max_gram` characters.
    Ngram { min_gram: usize, max_gram: usize, prefix_only: bool },
}

pub enum BaseTokenizerModel {
    Simple,
    Whitespace,
    Regex { pattern: Seq<char> },
    Ngram { min_gram: usize, max_gram: usize, prefix_only: bool },
}

impl View for BaseTokenizer {
    type V = BaseTokenizerModel;

    open spec fn view(&self) -> BaseTokenizerModel {
        match self {
            BaseTokenizer::Simple => BaseTokenizerModel::Simple,
            BaseTokenizer::Whitespace => BaseTokenizerModel::Whitespace,
            BaseTokenizer::Regex { pattern } => BaseTokenizerModel::Regex { pattern: pattern@ },
            BaseTokenizer::Ngram { min_gram, max_gram, prefix_only } => BaseTokenizerModel::Ngram {
                min_gram: *min_gram,
                max_gram: *max_gram,
                prefix_only: *prefix_only,
            },
        }
    }
}

/// What an analyzer is made of: a tokenizer, then the filters that are
/// asked for, always in this order: lowercase, stop words, stemming, the
/// removal of long tokens.
#[derive(Debug, PartialEq)]
pub struct AnalyzerPlan {
    pub base: BaseTokenizer,
    pub lowercase: bool,
    pub stop_words: Option<Language>,
    pub stemmer: Option<Language>,
    pub remove_long: Option<usize>,
}

pub struct AnalyzerPlanModel {
    pub base: BaseTokenizerModel,
    pub lowercase: bool,
    pub stop_words: Option<Language>,
    pub stemmer: Option<Language>,
    pub remove_long: Option<usize>,
}

impl View for AnalyzerPlan {
    type V = AnalyzerPlanModel;

    open spec fn view(&self) -> AnalyzerPlanModel {
        AnalyzerPlanModel {
            base: self.base@,
            lowercase: self.lowercase,
            stop_words: self.stop_words,
            stemmer: self.stemmer,
            remove_long: self.remove_long,
        }
    }
}

/// Why an analyzer could not be planned.
#[derive(Debug, PartialEq)]
pub enum TokenizerError {
    /// The word names no language.
    UnsupportedStopWordsLanguage(String),
    /// The language has no list of stop words.
    NoStopWords(String),
    /// The word names no language.
    UnsupportedStemmingLanguage(String),
    /// The word names no tokenizer to build on.
    UnsupportedBaseTokenizer(String),
    /// The pattern is no regular expression.
    InvalidPattern(String),
    /// The lengths are no range that starts above zero.
    InvalidGramRange { min_gram: usize, max_gram: usize },
}

pub enum TokenizerErrorModel {
    UnsupportedStopWordsLanguage(Seq<char>),
    NoStopWords(Seq<char>),
    UnsupportedStemmingLanguage(Seq<char>),
    UnsupportedBaseTokenizer(Seq<char>),
    InvalidPattern(Seq<char>),
    InvalidGramRange { min_gram: usize, max_gram: usize },
}

impl View for TokenizerError {
    type V = TokenizerErrorModel;

    open spec fn view(&self) -> TokenizerErrorModel {
        match self {
            TokenizerError::UnsupportedStopWordsLanguage(
                l,
            ) => TokenizerErrorModel::UnsupportedStopWordsLanguage(l@),
            TokenizerError::NoStopWords(l) => TokenizerErrorModel::NoStopWords(l@),
            TokenizerError::UnsupportedStemmingLanguage(
                l,
            ) => TokenizerErrorModel::UnsupportedStemmingLanguage(l@),
            TokenizerError::UnsupportedBaseTokenizer(
                b,
            ) => TokenizerErrorModel::UnsupportedBaseTokenizer(b@),
            TokenizerError::InvalidPattern(p) => TokenizerErrorModel::InvalidPattern(p@),
            TokenizerError::InvalidGramRange {
                min_gram,
                max_gram,
            } => TokenizerErrorModel::InvalidGramRange { min_gram: *min_gram, max_gram: *max_gram },
        }
    }
}

pub open spec fn named_language(word: Option<Seq<char>>) -> Option<Language> {
    match word {
        Some(w) => language_of(w),
        None => None,
    }
}

/// The plan of an analyzer on the tokenizer `simple` or `whitespace`. The
/// language of the stop words is judged first, then that of the stemmer,
/// then the tokenizer.
pub open spec fn planned(
    base: Seq<char>,
    lowercase: bool,
    stop_words: Option<Seq<char>>,
    stemming: Option<Seq<char>>,
    remove_long: Option<usize>,
) -> Result<AnalyzerPlanModel, TokenizerErrorModel> {
    if stop_words is Some && language_of(stop_words->0) is None {
        Err(TokenizerErrorModel::UnsupportedStopWordsLanguage(stop_words->0))
    } else if stop_words is Some && !language_of(stop_words->0)->0.stop_words() {
        Err(TokenizerErrorModel::NoStopWords(stop_words->0))
    } else if stemming is Some && language_of(stemming->0) is None {
        Err(TokenizerErrorModel::UnsupportedStemmingLanguage(stemming->0))
    } else if base != "simple"@ && base != "whitespace"@ {
        Err(TokenizerErrorModel::UnsupportedBaseTokenizer(base))
    } else {
        Ok(
            AnalyzerPlanModel {
                base: if base == "simple"@ {
                    BaseTokenizerModel::Simple
                } else {
                    BaseTokenizerModel::Whitespace
                },
                lowercase,
                stop_words: named_language(stop_words),
                stemmer: named_language(stemming),
                remove_long,
            },
        )
    }
}

/// Plans an analyzer: a tokenizer with the filters that are asked for.
pub fn plan_text_analyzer(
    base_tokenizer: &str,
    lowercase: bool,
    stop_words_language: &Option<String>,
    stemming_language: &Option<String>,
    remove_long_threshold: Option<usize>,
) -> (r: Result<AnalyzerPlan, TokenizerError>)
    ensures
        match r {
            Ok(plan) => planned(
                base_tokenizer@,
                lowercase,
                opt_text(*stop_words_language),
                opt_text(*stemming_language),
                remove_long_threshold,
            ) == Ok::<AnalyzerPlanModel, TokenizerErrorModel>(plan@),
            Err(e) => planned(
                base_tokenizer@,
                lowercase,
                opt_text(*stop_words_language),
                opt_text(*stemming_language),
                remove_long_threshold,
            ) == Err::<AnalyzerPlanModel, TokenizerErrorModel>(e@),
        },
{
    let stop_words = match stop_words_language {
        Some(word) => match parse_language(word.as_str()) {
            Some(language) => {
                if !language.has_stop_words() {
                    return Err(TokenizerError::NoStopWords(word.clone()));
                }
                Some(language)
            },
            None => {
                return Err(TokenizerError::UnsupportedStopWordsLanguage(word.clone()));
            },
        },
        None => None,
    };
    let stemmer = match stemming_language {
        Some(word) => match parse_language(word.as_str()) {
            Some(language) => Some(language),
            None => {
                return Err(TokenizerError::UnsupportedStemmingLanguage(word.clone()));
            },
        },
        None => None,
    };
    let base = if same_text(base_tokenizer, "simple") {
        BaseTokenizer::Simple
    } else if same_text(base_tokenizer, "whitespace") {
        BaseTokenizer::Whitespace
    } else {
        return Err(TokenizerError::UnsupportedBaseTokenizer(copy_text(base_tokenizer)));
    };
    Ok(AnalyzerPlan { base, lowercase, stop_words, stemmer, remove_long: remove_long_threshold })
}

/// The analyzers that are registered, each under its name. No name stands
/// twice.
#[derive(Debug, PartialEq)]
pub struct TokenizerRegistry {
    entries: Vec<(String, AnalyzerPlan)>,
}

/// Whether no two analyzers stand under one name.
pub open spec fn analyzers_once(registry: Seq<(Seq<char>, AnalyzerPlanModel)>) -> bool {
    forall|i: int, j: int| 0 <= i < j < registry.len() ==> registry[i].0 != registry[j].0
}

pub open spec fn registry_models(es: Seq<(String, AnalyzerPlan)>) -> Seq<
    (Seq<char>, AnalyzerPlanModel),
> {
    es.map_values(|e: (String, AnalyzerPlan)| (e.0@, e.1@))
}

impl View for TokenizerRegistry {
    type V = Seq<(Seq<char>, AnalyzerPlanModel)>;

    closed spec fn view(&self) -> Seq<(Seq<char>, AnalyzerPlanModel)> {
        registry_models(self.entries@)
    }
}

/// Whether an analyzer is registered under `name`.
pub open spec fn registered(registry: Seq<(Seq<char>, AnalyzerPlanModel)>, name: Seq<char>) -> bool {
    exists|i: int| 0 <= i < registry.len() && (#[trigger] registry[i]).0 == name
}

/// The registry after `plan` is registered under `name`: in the place of
/// the first analyzer of that name, or at the end where there is none.
pub open spec fn with_analyzer(
    registry: Seq<(Seq<char>, AnalyzerPlanModel)>,
    name: Seq<char>,
    plan: AnalyzerPlanModel,
) -> Seq<(Seq<char>, AnalyzerPlanModel)> {
    if registered(registry, name) {
        let i = choose|i: int|
            0 <= i < registry.len() && (#[trigger] registry[i]).0 == name && forall|k: int|
                0 <= k < i ==> (#[trigger] registry[k]).0 != name;
        registry.update(i, (name, plan))
    } else {
        registry.push((name, plan))
    }
}

/// Registering keeps each name to one analyzer.
pub proof fn lemma_with_analyzer_once(
    registry: Seq<(Seq<char>, AnalyzerPlanModel)>,
    name: Seq<char>,
    plan: AnalyzerPlanModel,
)
    requires
        analyzers_once(registry),
    ensures
        analyzers_once(with_analyzer(registry, name, plan)),
{
    let after = with_analyzer(registry, name, plan);
    if registered(registry, name) {
        let w = choose|i: int| 0 <= i < registry.len() && (#[trigger] registry[i]).0 == name;
        if exists|k: int| 0 <= k < w && (#[trigger] registry[k]).0 == name {
            let k = choose|k: int| 0 <= k < w && (#[trigger] registry[k]).0 == name;
            assert(registry[k].0 != registry[w].0);
        }
        assert(0 <= w < registry.len() && registry[w].0 == name && forall|k: int|
            0 <= k < w ==> (#[trigger] registry[k]).0 != name);
        let i = choose|i: int|
            0 <= i < registry.len() && (#[trigger] registry[i]).0 == name && forall|k: int|
                0 <= k < i ==> (#[trigger] registry[k]).0 != name;
        assert forall|a: int, b: int| 0 <= a < b < after.len() implies after[a].0 != after[b].0 by {
            assert(after[a].0 == registry[a].0);
            assert(after[b].0 == registry[b].0);
        }
    } else {
        assert forall|a: int, b: int| 0 <= a < b < after.len() implies after[a].0 != after[b].0 by {
            if b < registry.len() {
                assert(after[a] == registry[a] && after[b] == registry[b]);
            } else {
                assert(after[a] == registry[a]);
                assert(registry[a].0 != name);
            }
        }
    }
}

impl TokenizerRegistry {
    #[verifier::type_invariant]
    spec fn well_formed(self) -> bool {
        analyzers_once(registry_models(self.entries@))
    }

    /// The registry without analyzers.
    pub fn new() -> (r: TokenizerRegistry)
        ensures
            r@ == Seq::<(Seq<char>, AnalyzerPlanModel)>::empty(),
    {
        let r = TokenizerRegistry { entries: Vec::new() };
        proof {
            assert(r@ =~= Seq::<(Seq<char>, AnalyzerPlanModel)>::empty());
        }
        r
    }

    /// The analyzers, each with its name, in the order in which the names
    /// were first registered. No name stands twice.
    pub fn entries(&self) -> (r: &Vec<(String, AnalyzerPlan)>)
        ensures
            registry_models(r@) == self@,
            analyzers_once(self@),
    {
        proof {
            use_type_invariant(self);
        }
        &self.entries
    }
}

/// Registers an analyzer under a name, in the place of any analyzer that
/// has the name already.
pub fn register_tokenizer_with_tracking(registry: &mut TokenizerRegistry, name: &str, tokenizer: AnalyzerPlan)
    ensures
        final(registry)@ == with_analyzer(old(registry)@, name@, tokenizer@),
{
    proof {
        use_type_invariant(&*registry);
    }
    let ghost before = registry@;
    let mut entries: Vec<(String, AnalyzerPlan)> = Vec::new();
    std::mem::swap(&mut entries, &mut registry.entries);
    proof {
        lemma_with_analyzer_once(before, name@, tokenizer@);
    }
    let mut i: usize = 0;
    while i < entries.len()
        invariant
            i <= entries.len(),
            registry_models(entries@) == before,
            before == old(registry)@,
            analyzers_once(with_analyzer(before, name@, tokenizer@)),
            forall|k: int| 0 <= k < i ==> (#[trigger] before[k]).0 != name@,
        decreases entries.len() - i,
    {
        if same_text(entries[i].0.as_str(), name) {
            proof {
                assert(before[i as int].0 == name@);
                let c = choose|c: int|
                    0 <= c < before.len() && (#[trigger] before[c]).0 == name@ && forall|k: int|
                        0 <= k < c ==> (#[trigger] before[k]).0 != name@;
                assert(c == i) by {
                    if c < i {
                        assert(before[c].0 != name@);
                    }
                    if i < c {
                        assert(before[i as int].0 != name@);
                    }
                }
            }
            let key = copy_text(name);
            entries.set(i, (key, tokenizer));
            proof {
                assert(registry_models(entries@) =~= before.update(i as int, (name@, tokenizer@)));
            }
            registry.entries = entries;
            return ;
        }
        i += 1;
    }
    let key = copy_text(name);
    entries.push((key, tokenizer));
    proof {
        assert(registry_models(entries@) =~= before.push((name@, tokenizer@)));
    }
    registry.entries = entries;
}

/// The names of the registered analyzers, in the order of the registry.
pub fn list_tokenizers(registry: &TokenizerRegistry) -> (names: Vec<String>)
    ensures
        texts(names@) == registry@.map_values(|e: (Seq<char>, AnalyzerPlanModel)| e.0),
{
    let mut names: Vec<String> = Vec::new();
    let mut i: usize = 0;
    while i < registry.entries.len()
        invariant
            i <= registry.entries.len(),
            names.len() == i,
            forall|k: int| 0 <= k < i ==> (#[trigger] names@[k])@ == registry@[k].0,
        decreases registry.entries.len() - i,
    {
        proof {
            assert(registry@[i as int].0 == registry.entries@[i as int].0@);
        }
        names.push(registry.entries[i].0.clone());
        i += 1;
    }
    proof {
        assert(texts(names@) =~= registry@.map_values(|e: (Seq<char>, AnalyzerPlanModel)| e.0));
    }
    names
}

/// A tokenizer alone, without a filter.
pub open spec fn bare(base: BaseTokenizerModel) -> AnalyzerPlanModel {
    AnalyzerPlanModel { base, lowercase: false, stop_words: None, stemmer: None, remove_long: None }
}

fn bare_plan(base: BaseTokenizer) -> (p: AnalyzerPlan)
    ensures
        p@ == bare(base@),
{
    AnalyzerPlan { base, lowercase: false, stop_words: None, stemmer: None, remove_long: None }
}

/// Registers the tokenizer that cuts at every character that is no letter
/// or digit.
pub fn register_simple_tokenizer(registry: &mut TokenizerRegistry, name: &str)
    ensures
        final(registry)@ == with_analyzer(old(registry)@, name@, bare(BaseTokenizerModel::Simple)),
{
    register_tokenizer_with_tracking(registry, name, bare_plan(BaseTokenizer::Simple));
}

/// Registers the tokenizer that cuts at whitespace.
pub fn register_whitespace_tokenizer(registry: &mut TokenizerRegistry, name: &str)
    ensures
        final(registry)@ == with_analyzer(
            old(registry)@,
            name@,
            bare(BaseTokenizerModel::Whitespace),
        ),
{
    register_tokenizer_with_tracking(registry, name, bare_plan(BaseTokenizer::Whitespace));
}

/// Registers a tokenizer that cuts by a pattern, once the pattern has been
/// judged.
pub fn register_checked_pattern(
    registry: &mut TokenizerRegistry,
    name: &str,
    pattern: &str,
    valid: bool,
) -> (r: Result<(), TokenizerError>)
    ensures
        match r {
            Ok(_) => valid && final(registry)@ == with_analyzer(
                old(registry)@,
                name@,
                bare(BaseTokenizerModel::Regex { pattern: pattern@ }),
            ),
            Err(e) => !valid && e@ == TokenizerErrorModel::InvalidPattern(pattern@) && final(registry)@ == old(registry)@,
        },
{
    if valid {
        register_tokenizer_with_tracking(
            registry,
            name,
            bare_plan(BaseTokenizer::Regex { pattern: copy_text(pattern) }),
        );
        Ok(())
    } else {
        Err(TokenizerError::InvalidPattern(copy_text(pattern)))
    }
}

/// Registers a tokenizer that cuts by the matches of a pattern.
pub fn register_regex_tokenizer(registry: &mut TokenizerRegistry, name: &str, pattern: &str) -> (r:
    Result<(), TokenizerError>)
    ensures
        match r {
            Ok(_) => token_pattern_valid(pattern@) && final(registry)@ == with_analyzer(
                old(registry)@,
                name@,
                bare(BaseTokenizerModel::Regex { pattern: pattern@ }),
            ),
            Err(e) => !token_pattern_valid(pattern@) && e@ == TokenizerErrorModel::InvalidPattern(
                pattern@,
            ) && final(registry)@ == old(registry)@,
        },
{
    let valid = token_pattern_compiles(pattern);
    register_checked_pattern(registry, name, pattern, valid)
}

/// Registers a tokenizer that cuts a text into runs of `min_gram` to
/// `max_gram` characters. The smallest length must be above zero and not
/// above the largest.
pub fn register_ngram_tokenizer(
    registry: &mut TokenizerRegistry,
    name: &str,
    min_gram: usize,
    max_gram: usize,
    prefix_only: bool,
) -> (r: Result<(), TokenizerError>)
    ensures
        match r {
            Ok(_) => 0 < min_gram <= max_gram && final(registry)@ == with_analyzer(
                old(registry)@,
                name@,
                bare(BaseTokenizerModel::Ngram { min_gram, max_gram, prefix_only }),
            ),
            Err(e) => !(0 < min_gram <= max_gram) && e@ == (TokenizerErrorModel::InvalidGramRange {
                min_gram,
                max_gram,
            }) && final(registry)@ == old(registry)@,
        },
{
    if ngram_accepted(min_gram, max_gram, prefix_only) {
        register_tokenizer_with_tracking(
            registry,
            name,
            bare_plan(BaseTokenizer::Ngram { min_gram, max_gram, prefix_only }),
        );
        Ok(())
    } else {
        Err(TokenizerError::InvalidGramRange { min_gram, max_gram })
    }
}

/// Plans an analyzer and registers it under a name. Where the plan fails
/// the registry stays as it is.
pub fn register_text_analyzer(
    registry: &mut TokenizerRegistry,
    name: &str,
    base_tokenizer: &str,
    lowercase: bool,
    stop_words_language: &Option<String>,
    stemming_language: &Option<String>,
    remove_long_threshold: Option<usize>,
) -> (r: Result<(), TokenizerError>)
    ensures
        match r {
            Ok(_) => {
                let plan = planned(
                    base_tokenizer@,
                    lowercase,
                    opt_text(*stop_words_language),
                    opt_text(*stemming_language),
                    remove_long_threshold,
                );
                plan is Ok && final(registry)@ == with_analyzer(old(registry)@, name@, plan->Ok_0)
            },
            Err(e) => planned(
                base_tokenizer@,
                lowercase,
                opt_text(*stop_words_language),
                opt_text(*stemming_language),
                remove_long_threshold,
            ) == Err::<AnalyzerPlanModel, TokenizerErrorModel>(e@) && final(registry)@ == old(registry)@,
        },
{
    match plan_text_analyzer(
        base_tokenizer,
        lowercase,
        stop_words_language,
        stemming_language,
        remove_long_threshold,
    ) {
        Ok(plan) => {
            register_tokenizer_with_tracking(registry, name, plan);
            Ok(())
        },
        Err(e) => Err(e),
    }
}

/// The analyzer that lowers the case and stems in a language.
pub open spec fn stemming_plan(language: Language) -> AnalyzerPlanModel {
    AnalyzerPlanModel {
        base: BaseTokenizerModel::Simple,
        lowercase: true,
        stop_words: None,
        stemmer: Some(language),
        remove_long: None,
    }
}

/// The analyzer for English text: lowercase, without stop words, stemmed.
pub open spec fn english_text_plan() -> AnalyzerPlanModel {
    AnalyzerPlanModel {
        base: BaseTokenizerModel::Simple,
        lowercase: true,
        stop_words: Some(Language::English),
        stemmer: Some(Language::English),
        remove_long: None,
    }
}

/// The registry with the standard analyzers registered, in this order:
/// `default`, `simple`, `keyword`, `whitespace`, `raw`, a stemming analyzer
/// for each of seven languages, and `en_text`.
pub open spec fn with_defaults(registry: Seq<(Seq<char>, AnalyzerPlanModel)>) -> Seq<
    (Seq<char>, AnalyzerPlanModel),
> {
    let simple = bare(BaseTokenizerModel::Simple);
    let r1 = with_analyzer(registry, "default"@, simple);
    let r2 = with_analyzer(r1, "simple"@, simple);
    let r3 = with_analyzer(r2, "keyword"@, simple);
    let r4 = with_analyzer(r3, "whitespace"@, bare(BaseTokenizerModel::Whitespace));
    let r5 = with_analyzer(r4, "raw"@, simple);
    let r6 = with_analyzer(r5, "en_stem"@, stemming_plan(Language::English));
    let r7 = with_analyzer(r6, "fr_stem"@, stemming_plan(Language::French));
    let r8 = with_analyzer(r7, "de_stem"@, stemming_plan(Language::German));
    let r9 = with_analyzer(r8, "es_stem"@, stemming_plan(Language::Spanish));
    let r10 = with_analyzer(r9, "it_stem"@, stemming_plan(Language::Italian));
    let r11 = with_analyzer(r10, "pt_stem"@, stemming_plan(Language::Portuguese));
    let r12 = with_analyzer(r11, "ru_stem"@, stemming_plan(Language::Russian));
    with_analyzer(r12, "en_text"@, english_text_plan())
}

fn stemming(language: Language) -> (p: AnalyzerPlan)
    ensures
        p@ == stemming_plan(language),
{
    AnalyzerPlan {
        base: BaseTokenizer::Simple,
        lowercase: true,
        stop_words: None,
        stemmer: Some(language),
        remove_long: None,
    }
}

/// Registers the standard analyzers.
pub fn register_default_tokenizers(registry: &mut TokenizerRegistry)
    ensures
        final(registry)@ == with_defaults(old(registry)@),
{
    register_simple_tokenizer(registry, "default");
    register_simple_tokenizer(registry, "simple");
    register_simple_tokenizer(registry, "keyword");
    register_whitespace_tokenizer(registry, "whitespace");
    register_simple_tokenizer(registry, "raw");
    register_tokenizer_with_tracking(registry, "en_stem", stemming(Language::English));
    register_tokenizer_with_tracking(registry, "fr_stem", stemming(Language::French));
    register_tokenizer_with_tracking(registry, "de_stem", stemming(Language::German));
    register_tokenizer_with_tracking(registry, "es_stem", stemming(Language::Spanish));
    register_tokenizer_with_tracking(registry, "it_stem", stemming(Language::Italian));
    register_tokenizer_with_tracking(registry, "pt_stem", stemming(Language::Portuguese));
    register_tokenizer_with_tracking(registry, "ru_stem", stemming(Language::Russian));
    register_tokenizer_with_tracking(
        registry,
        "en_text",
        AnalyzerPlan {
            base: BaseTokenizer::Simple,
            lowercase: true,
            stop_words: Some(Language::English),
            stemmer: Some(Language::English),
            remove_long: None,
        },
    );
}

/// A token with its place in a text.
#[derive(Debug, PartialEq)]
pub struct TokenSpan {
    pub offset_from: usize,
    pub offset_to: usize,
    pub position: usize,
    pub text: String,
    pub position_length: usize,
}

/// A text that was cut into tokens beforehand.
#[derive(Debug, PartialEq)]
pub struct PreTokenized {
    pub text: String,
    pub tokens: Vec<TokenSpan>,
}

/// The texts with a blank between each two.
pub open spec fn joined_by_blank(ts: Seq<Seq<char>>) -> Seq<char>
    decreases ts.len(),
{
    if ts.len() == 0 {
        Seq::empty()
    } else if ts.len() == 1 {
        ts[0]
    } else {
        joined_by_blank(ts.drop_last()) + seq![' '] + ts.last()
    }
}

/// How wide the place of each token is taken to be.
pub const TOKEN_STRIDE: usize = 10;

/// Gives tokens that were cut beforehand their places: the token at
/// position `i` spans ten offsets from `10 * i`. The text is the tokens
/// with a blank between each two.
pub fn process_pre_tokenized_text(tokens: Vec<String>) -> (r: PreTokenized)
    requires
        tokens@.len() * TOKEN_STRIDE <= usize::MAX,
    ensures
        r.text@ == joined_by_blank(texts(tokens@)),
        r.tokens@.len() == tokens@.len(),
        forall|i: int|
            0 <= i < tokens@.len() ==> {
                let t = #[trigger] r.tokens@[i];
                &&& t.text@ == tokens@[i]@
                &&& t.position == i
                &&& t.offset_from == i * TOKEN_STRIDE
                &&& t.offset_to == (i + 1) * TOKEN_STRIDE
                &&& t.position_length == 1
            },
{
    let ghost all = texts(tokens@);
    let mut text: Vec<char> = Vec::new();
    let mut spans: Vec<TokenSpan> = Vec::new();
    proof {
        assert(all.take(0) =~= Seq::<Seq<char>>::empty());
    }
    for token in it: tokens
        invariant
            it.seq() == tokens@,
            all == texts(tokens@),
            tokens@.len() * TOKEN_STRIDE <= usize::MAX,
            text@ == joined_by_blank(all.take(it.index() as int)),
            spans@.len() == it.index(),
            forall|i: int|
                0 <= i < it.index() ==> {
                    let t = #[trigger] spans@[i];
                    &&& t.text@ == tokens@[i]@
                    &&& t.position == i
                    &&& t.offset_from == i * TOKEN_STRIDE
                    &&& t.offset_to == (i + 1) * TOKEN_STRIDE
                    &&& t.position_length == 1
                },
    {
        let i = spans.len();
        proof {
            assert(all.take(i + 1).drop_last() =~= all.take(i as int));
            assert(all.take(i + 1).last() == token@);
            assert(all.take(i + 1)[0] == all[0]);
        }
        if i > 0 {
            text.push(' ');
        }
        push_text(&mut text, token.as_str());
        proof {
            if i > 0 {
                assert(text@ =~= joined_by_blank(all.take(i as int)) + seq![' '] + token@);
            } else {
                assert(joined_by_blank(all.take(0)) =~= Seq::<char>::empty());
                assert(text@ =~= token@);
            }
        }
        spans.push(
            TokenSpan {
                offset_from: i * TOKEN_STRIDE,
                offset_to: (i + 1) * TOKEN_STRIDE,
                position: i,
                text: token,
                position_length: 1,
            },
        );
    }
    proof {
        assert(all.take(all.len() as int) =~= all);
    }
    PreTokenized { text: string_of(&text), tokens: spans }
}

} // verus!
