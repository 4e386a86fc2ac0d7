//! What an extraction run is configured with: the questions to ask, the
//! vocabulary of the graph, and where to send the text.

use vstd::prelude::*;

use crate::text::{join2, texts};
use crate::text_map::{find_from, Entries, TextMap};

verus! {

/// One thing to look for in a document.
#[derive(Debug)]
pub struct ExtractionQuestion {
    pub id: String,
    pub question: String,
    pub description: Option<String>,
    pub expected_type: Option<String>,
    pub constraints: Vec<String>,
}

/// The vocabulary of a graph: the namespace of its predicates and classes
/// with the short prefix that stands for it, the base of its entity URIs, and
/// the predicates and classes it knows, each with a description.
#[derive(Debug)]
pub struct RdfSchema {
    pub namespace: String,
    pub prefix: String,
    pub base_uri: String,
    pub predicates: TextMap,
    pub classes: TextMap,
    pub custom_vocabularies: TextMap,
}

impl Clone for RdfSchema {
    fn clone(&self) -> (copy: Self)
        ensures
            copy.namespace@ == self.namespace@,
            copy.prefix@ == self.prefix@,
            copy.base_uri@ == self.base_uri@,
            copy.predicates@ == self.predicates@,
            copy.classes@ == self.classes@,
            copy.custom_vocabularies@ == self.custom_vocabularies@,
    {
        RdfSchema {
            namespace: self.namespace.clone(),
            prefix: self.prefix.clone(),
            base_uri: self.base_uri.clone(),
            predicates: self.predicates.clone(),
            classes: self.classes.clone(),
            custom_vocabularies: self.custom_vocabularies.clone(),
        }
    }
}

/// The text encodings of a sequence of statements.
#[derive(Debug, Clone, Copy, PartialEq, Eq, Structural)]
pub enum OutputFormat {
    Turtle,
    JsonLd,
    NTriples,
    RdfXml,
    Json,
}

impl OutputFormat {
    /// The name of the format on the command line and in export requests.
    pub fn name(self) -> (name: &'static str)
        ensures
            name@ == match self {
                OutputFormat::Turtle => "turtle"@,
                OutputFormat::JsonLd => "jsonld"@,
                OutputFormat::NTriples => "ntriples"@,
                OutputFormat::RdfXml => "rdfxml"@,
                OutputFormat::Json => "json"@,
            },
    {
        match self {
            OutputFormat::Turtle => "turtle",
            OutputFormat::JsonLd => "jsonld",
            OutputFormat::NTriples => "ntriples",
            OutputFormat::RdfXml => "rdfxml",
            OutputFormat::Json => "json",
        }
    }
}

/// How to reach the text-generation service. `temperature_bits` is the
/// sampling temperature, a single-precision number, as its IEEE-754 bit
/// pattern.
#[derive(Debug)]
pub struct LlmSettings {
    pub base_url: String,
    pub api_key: Option<String>,
    pub model: String,
    pub temperature_bits: u32,
    pub max_tokens: u32,
    pub timeout: u64,
}

/// The bit pattern of the default temperature, `0.3`.
pub const DEFAULT_TEMPERATURE: u32 = 0x3E99_999A;

/// The default limit on generated tokens.
pub const DEFAULT_MAX_TOKENS: u32 = 4096;

/// The default time to wait for the service, in seconds.
pub const DEFAULT_TIMEOUT: u64 = 120;

/// The temperature used where a configuration names none.
pub fn default_temperature() -> (bits: u32)
    ensures
        bits == DEFAULT_TEMPERATURE,
{
    DEFAULT_TEMPERATURE
}

/// The token limit used where a configuration names none.
pub fn default_max_tokens() -> (n: u32)
    ensures
        n == 4096,
{
    DEFAULT_MAX_TOKENS
}

/// The timeout used where a configuration names none.
pub fn default_timeout() -> (seconds: u64)
    ensures
        seconds == 120,
{
    DEFAULT_TIMEOUT
}

/// The value of a switch that a configuration leaves out.
pub fn default_true() -> (b: bool)
    ensures
        b,
{
    true
}

/// What to do with statements once they are extracted.
#[derive(Debug, Clone, Copy, PartialEq, Eq, Structural)]
pub struct PostProcessing {
    pub deduplicate: bool,
    pub normalize_uris: bool,
}

impl Default for PostProcessing {
    fn default() -> (p: Self)
        ensures
            !p.deduplicate,
            !p.normalize_uris,
    {
        PostProcessing { deduplicate: false, normalize_uris: false }
    }
}

/// A whole extraction configuration.
#[derive(Debug)]
pub struct Configuration {
    pub name: String,
    pub description: String,
    pub version: String,
    pub extraction_questions: Vec<ExtractionQuestion>,
    pub rdf_schema: RdfSchema,
    pub output_format: OutputFormat,
    pub llm_settings: LlmSettings,
    pub validation_rules: Vec<String>,
    pub post_processing: PostProcessing,
}

/// Why a configuration cannot be used.
#[derive(Debug)]
pub enum ConfigError {
    /// The configuration asks no question.
    NoQuestions,
    /// The schema names no base URI for entities.
    NoBaseUri,
    /// A question has an empty id; the field is the question's text.
    QuestionMissingId(String),
}

impl ConfigError {
    /// The error as a sentence.
    pub fn message(&self) -> (text: String)
        ensures
            text@ == match self {
                ConfigError::NoQuestions => "No extraction questions defined"@,
                ConfigError::NoBaseUri => "No base URI defined for RDF schema"@,
                ConfigError::QuestionMissingId(q) => "Question missing ID: "@ + q@,
            },
    {
        match self {
            ConfigError::NoQuestions => "No extraction questions defined".to_string(),
            ConfigError::NoBaseUri => "No base URI defined for RDF schema".to_string(),
            ConfigError::QuestionMissingId(q) => join2(
                "Question missing ID: ",
                q.as_str(),
            ),
        }
    }
}

/// The index of the first question whose id is empty, or the number of
/// questions when every question has an id.
pub open spec fn first_without_id(questions: Seq<ExtractionQuestion>, from: int) -> int
    decreases questions.len() - from,
{
    if from < 0 || from >= questions.len() {
        questions.len() as int
    } else if questions[from].id@.len() == 0 {
        from
    } else {
        first_without_id(questions, from + 1)
    }
}

/// The predicates of the example configuration.
pub open spec fn example_predicates() -> Entries {
    seq![
        ("hasName"@, "Entity has name"@),
        ("hasRole"@, "Person has role"@),
        ("worksFor"@, "Person works for organization"@),
        ("locatedIn"@, "Entity is located in place"@),
    ]
}

/// The classes of the example configuration.
pub open spec fn example_classes() -> Entries {
    seq![
        ("Person"@, "A human being"@),
        ("Organization"@, "A company or institution"@),
        ("Role"@, "A job title or position"@),
    ]
}

impl Configuration {
    /// A configuration to start from: two questions about organizations and
    /// people, the schema of `http://example.org/`, Turtle as the output, a
    /// local service, both validation rules, and both post-processing steps.
    pub fn example() -> (config: Self)
        ensures
            config.name@ == "Example RDF Extraction Config"@,
            config.description@ == "Extract organization and person information from documents"@,
            config.version@ == "1.0"@,
            config.extraction_questions@.len() == 2,
            config.extraction_questions@[0].id@ == "org_name"@,
            config.extraction_questions@[0].question@
                == "What organizations are mentioned in the document?"@,
            config.extraction_questions@[1].id@ == "person_name"@,
            config.extraction_questions@[1].question@
                == "What people are mentioned with their roles?"@,
            config.rdf_schema.namespace@ == "http://example.org/ontology#"@,
            config.rdf_schema.prefix@ == "ex"@,
            config.rdf_schema.base_uri@ == "http://example.org/resource/"@,
            config.rdf_schema.predicates@ == example_predicates(),
            config.rdf_schema.classes@ == example_classes(),
            config.rdf_schema.custom_vocabularies@.len() == 0,
            config.output_format == OutputFormat::Turtle,
            config.llm_settings.base_url@ == "http://localhost:8000"@,
            config.llm_settings.api_key is None,
            config.llm_settings.model@ == "Qwen/Qwen2.5-32B-Instruct"@,
            config.llm_settings.temperature_bits == DEFAULT_TEMPERATURE,
            config.llm_settings.max_tokens == 4096,
            config.llm_settings.timeout == 120,
            texts(config.validation_rules@) == seq![
                "require_valid_uri"@,
                "require_known_predicates"@,
            ],
            config.post_processing.deduplicate,
            config.post_processing.normalize_uris,
    {
        let mut predicates = TextMap::new();
        proof {
            reveal_with_fuel(find_from, 5);
            reveal_strlit("hasName");
            reveal_strlit("hasRole");
            reveal_strlit("worksFor");
            reveal_strlit("locatedIn");
            reveal_strlit("Person");
            reveal_strlit("Organization");
            reveal_strlit("Role");
            assert("hasName"@[3] != "hasRole"@[3]);
            assert("hasName"@[0] != "worksFor"@[0]);
            assert("hasName"@[0] != "locatedIn"@[0]);
            assert("hasRole"@[0] != "worksFor"@[0]);
            assert("hasRole"@[0] != "locatedIn"@[0]);
            assert("worksFor"@[0] != "locatedIn"@[0]);
            assert("Person"@[0] != "Organization"@[0]);
            assert("Person"@[0] != "Role"@[0]);
            assert("Organization"@[0] != "Role"@[0]);
        }
        predicates.insert("hasName".to_string(), "Entity has name".to_string());
        predicates.insert("hasRole".to_string(), "Person has role".to_string());
        predicates.insert("worksFor".to_string(), "Person works for organization".to_string());
        predicates.insert("locatedIn".to_string(), "Entity is located in place".to_string());
        assert(predicates@ =~= example_predicates());
        let mut classes = TextMap::new();
        classes.insert("Person".to_string(), "A human being".to_string());
        classes.insert("Organization".to_string(), "A company or institution".to_string());
        classes.insert("Role".to_string(), "A job title or position".to_string());
        assert(classes@ =~= example_classes());
        let mut organization_constraints: Vec<String> = Vec::new();
        organization_constraints.push("Must be proper noun".to_string());
        organization_constraints.push("Full organization name".to_string());
        let mut person_constraints: Vec<String> = Vec::new();
        person_constraints.push("Include full name".to_string());
        person_constraints.push("Include job title if mentioned".to_string());
        let mut extraction_questions: Vec<ExtractionQuestion> = Vec::new();
        extraction_questions.push(
            ExtractionQuestion {
                id: "org_name".to_string(),
                question: "What organizations are mentioned in the document?".to_string(),
                description: Some(
                    "Extract names of companies, institutions, or organizations".to_string(),
                ),
                expected_type: Some("string".to_string()),
                constraints: organization_constraints,
            },
        );
        extraction_questions.push(
            ExtractionQuestion {
                id: "person_name".to_string(),
                question: "What people are mentioned with their roles?".to_string(),
                description: Some(
                    "Extract person names and their associated roles or titles".to_string(),
                ),
                expected_type: Some("object".to_string()),
                constraints: person_constraints,
            },
        );
        let mut validation_rules: Vec<String> = Vec::new();
        validation_rules.push("require_valid_uri".to_string());
        validation_rules.push("require_known_predicates".to_string());
        assert(texts(validation_rules@) =~= seq![
            "require_valid_uri"@,
            "require_known_predicates"@,
        ]);
        Configuration {
            name: "Example RDF Extraction Config".to_string(),
            description: "Extract organization and person information from documents".to_string(),
            version: "1.0".to_string(),
            extraction_questions,
            rdf_schema: RdfSchema {
                namespace: "http://example.org/ontology#".to_string(),
                prefix: "ex".to_string(),
                base_uri: "http://example.org/resource/".to_string(),
                predicates,
                classes,
                custom_vocabularies: TextMap::new(),
            },
            output_format: OutputFormat::Turtle,
            llm_settings: LlmSettings {
                base_url: "http://localhost:8000".to_string(),
                api_key: None,
                model: "Qwen/Qwen2.5-32B-Instruct".to_string(),
                temperature_bits: DEFAULT_TEMPERATURE,
                max_tokens: DEFAULT_MAX_TOKENS,
                timeout: DEFAULT_TIMEOUT,
            },
            validation_rules,
            post_processing: PostProcessing { deduplicate: true, normalize_uris: true },
        }
    }

    /// What `validate` answers: the first fault, in the order in which they
    /// are looked for, or none.
    pub open spec fn fault(&self) -> Option<ConfigError> {
        let missing = first_without_id(self.extraction_questions@, 0);
        if self.extraction_questions@.len() == 0 {
            Some(ConfigError::NoQuestions)
        } else if self.rdf_schema.base_uri@.len() == 0 {
            Some(ConfigError::NoBaseUri)
        } else if missing < self.extraction_questions@.len() {
            Some(ConfigError::QuestionMissingId(self.extraction_questions@[missing].question))
        } else {
            None
        }
    }

    /// Checks that the configuration asks at least one question, names a base
    /// URI, and gives every question an id.
    pub fn validate(&self) -> (r: Result<(), ConfigError>)
        ensures
            r == match self.fault() {
                Some(fault) => Err::<(), ConfigError>(fault),
                None => Ok(()),
            },
    {
        if self.extraction_questions.len() == 0 {
            return Err(ConfigError::NoQuestions);
        }
        if self.rdf_schema.base_uri.as_str().is_empty() {
            return Err(ConfigError::NoBaseUri);
        }
        let mut i: usize = 0;
        while i < self.extraction_questions.len()
            invariant
                i <= self.extraction_questions.len(),
                self.extraction_questions@.len() > 0,
                self.rdf_schema.base_uri@.len() != 0,
                first_without_id(self.extraction_questions@, 0) == first_without_id(
                    self.extraction_questions@,
                    i as int,
                ),
            decreases self.extraction_questions.len() - i,
        {
            if self.extraction_questions[i].id.as_str().is_empty() {
                return Err(
                    ConfigError::QuestionMissingId(self.extraction_questions[i].question.clone()),
                );
            }
            i += 1;
        }
        Ok(())
    }
}

} // verus!
