use rdf_knowledge_extractor::config::{
    default_max_tokens, default_temperature, default_timeout, default_true, ConfigError,
    Configuration, OutputFormat, PostProcessing,
};
use rdf_knowledge_extractor::extractor::{
    ExtractionError, ExtractionResult, RdfExtractor, ResponseField, ResponseNode,
};
use rdf_knowledge_extractor::handlers::{
    describe_file, DocumentProcessor, HandlerKind, PageElement, PageHead, PdfHandler, TextHandler,
    UrlHandler,
};
use rdf_knowledge_extractor::llm_client::{
    bearer, build_messages, build_request, completions_url, cut_document, health_url, join_all,
    json_prompt,
    models_url, strip_code_fence, trim_base_url, PromptBuilder, NO_PENALTY, TOP_P,
};
use rdf_knowledge_extractor::serialization::numbered_output_name;
use rdf_knowledge_extractor::text_map::TextMap;
use rdf_knowledge_extractor::triple::{RdfTriple, FULL_CONFIDENCE};

fn field(name: &str, value: ResponseNode) -> ResponseField {
    ResponseField { name: name.to_string(), value }
}

fn text(s: &str) -> ResponseNode {
    ResponseNode::Text(s.to_string())
}

fn item(s: &str, p: &str, o: &str) -> ResponseNode {
    ResponseNode::Record(vec![field("subject", text(s)), field("predicate", text(p)), field("object", text(o))])
}

fn extractor() -> RdfExtractor {
    RdfExtractor::new(Configuration::example())
}

fn triple(s: &str, p: &str, o: &str) -> RdfTriple {
    RdfTriple::new(s.to_string(), p.to_string(), o.to_string())
}

#[test]
fn the_example_configuration_is_valid() {
    let config = Configuration::example();
    assert!(config.validate().is_ok());
    assert_eq!(config.name, "Example RDF Extraction Config");
    assert_eq!(config.extraction_questions.len(), 2);
    assert_eq!(config.extraction_questions[0].constraints, vec!["Must be proper noun", "Full organization name"]);
    assert_eq!(config.rdf_schema.predicates.len(), 4);
    assert_eq!(config.rdf_schema.predicates.get("worksFor").unwrap(), "Person works for organization");
    assert_eq!(config.rdf_schema.classes.key_at(2), "Role");
    assert_eq!(config.output_format, OutputFormat::Turtle);
    assert_eq!(f32::from_bits(config.llm_settings.temperature_bits), 0.3);
    assert_eq!(config.llm_settings.max_tokens, 4096);
    assert_eq!(config.llm_settings.timeout, 120);
    assert_eq!(config.validation_rules, vec!["require_valid_uri", "require_known_predicates"]);
    assert!(config.post_processing.deduplicate && config.post_processing.normalize_uris);
}

#[test]
fn defaults_of_a_configuration() {
    assert_eq!(f32::from_bits(default_temperature()), 0.3);
    assert_eq!(default_max_tokens(), 4096);
    assert_eq!(default_timeout(), 120);
    assert!(default_true());
    assert_eq!(PostProcessing::default(), PostProcessing { deduplicate: false, normalize_uris: false });
    assert_eq!(OutputFormat::JsonLd.name(), "jsonld");
    assert_eq!(OutputFormat::RdfXml.name(), "rdfxml");
    assert_eq!(OutputFormat::NTriples.name(), "ntriples");
    assert_eq!(numbered_output_name("out", 0, "ttl"), "out_1.ttl");
    assert_eq!(numbered_output_name("out", 11, ""), "out_12.");
}

#[test]
fn a_configuration_is_checked_in_order() {
    let mut config = Configuration::example();
    config.extraction_questions[1].id = String::new();
    match config.validate() {
        Err(ConfigError::QuestionMissingId(q)) => {
            assert_eq!(q, "What people are mentioned with their roles?")
        }
        other => panic!("unexpected {:?}", other),
    }
    assert_eq!(
        config.validate().unwrap_err().message(),
        "Question missing ID: What people are mentioned with their roles?"
    );
    config.rdf_schema.base_uri = String::new();
    assert!(matches!(config.validate(), Err(ConfigError::NoBaseUri)));
    assert_eq!(config.validate().unwrap_err().message(), "No base URI defined for RDF schema");
    config.extraction_questions.clear();
    assert!(matches!(config.validate(), Err(ConfigError::NoQuestions)));
    assert_eq!(config.validate().unwrap_err().message(), "No extraction questions defined");
}

#[test]
fn an_answer_is_read_item_by_item() {
    let x = extractor();
    let answer = ResponseNode::List(vec![
        item("company1", "hasName", "Acme"),
        item("http://other.org/x", "https://other.org/p", "http://other.org/y"),
        item("", "hasName", "nobody"),
        ResponseNode::Text("noise".to_string()),
        ResponseNode::Record(vec![
            field("subject", text("p1")),
            field("predicate", text("hasRole")),
            field("object", text("CEO")),
            field("confidence", ResponseNode::Number(0.5f32.to_bits())),
        ]),
        ResponseNode::Record(vec![
            field("subject", text("p2")),
            field("predicate", ResponseNode::Other),
            field("object", text("CEO")),
        ]),
        ResponseNode::Record(vec![
            field("subject", text("p3")),
            field("predicate", text("hasRole")),
            field("object", text("CTO")),
            field("confidence", text("high")),
        ]),
    ]);
    let triples = x.parse_llm_response(&answer, "doc.txt").unwrap();
    let lines: Vec<String> = triples.iter().map(|t| t.to_ntriple()).collect();
    assert_eq!(
        lines,
        vec![
            "<http://example.org/resource/company1> <http://example.org/ontology#hasName> \"Acme\" .",
            "<http://other.org/x> <https://other.org/p> <http://other.org/y> .",
            "<http://example.org/resource/p1> <http://example.org/ontology#hasRole> \"CEO\" .",
            "<http://example.org/resource/p3> <http://example.org/ontology#hasRole> \"CTO\" .",
        ]
    );
    assert_eq!(triples[0].confidence_bits, FULL_CONFIDENCE);
    assert_eq!(f32::from_bits(triples[2].confidence_bits), 0.5);
    assert_eq!(triples[3].confidence_bits, FULL_CONFIDENCE);
    assert!(triples.iter().all(|t| t.source.as_deref() == Some("doc.txt")));
}

#[test]
fn an_answer_may_hold_its_items_under_triples() {
    let x = extractor();
    let wrapped = ResponseNode::Record(vec![
        field("note", text("ok")),
        field("triples", ResponseNode::List(vec![item("a", "hasName", "A")])),
    ]);
    assert_eq!(x.parse_llm_response(&wrapped, "d").unwrap().len(), 1);
    let not_an_array = ResponseNode::Record(vec![field("triples", text("none"))]);
    assert_eq!(x.parse_llm_response(&not_an_array, "d").unwrap_err(), ExtractionError::TriplesNotAnArray);
    assert_eq!(ExtractionError::TriplesNotAnArray.message(), "'triples' field is not an array");
    let without = ResponseNode::Record(vec![field("other", ResponseNode::List(vec![]))]);
    assert!(x.parse_llm_response(&without, "d").unwrap().is_empty());
    assert!(x.parse_llm_response(&ResponseNode::Text("x".to_string()), "d").unwrap().is_empty());
    assert!(x.parse_llm_response(&ResponseNode::Other, "d").unwrap().is_empty());
    assert!(x.parse_llm_response(&ResponseNode::Number(0), "d").unwrap().is_empty());
}

#[test]
fn names_are_made_absolute() {
    let x = extractor();
    assert_eq!(x.normalize_uri("acme".to_string()), "http://example.org/resource/acme");
    assert_eq!(x.normalize_uri("https://a/b".to_string()), "https://a/b");
    assert_eq!(x.normalize_uri("httpfoo".to_string()), "http://example.org/resource/httpfoo");
    assert_eq!(x.normalize_predicate("hasName".to_string()), "http://example.org/ontology#hasName");
    assert_eq!(x.normalize_predicate("http://a#p".to_string()), "http://a#p");
}

#[test]
fn duplicates_are_removed_and_rules_applied() {
    let x = extractor();
    let triples = vec![
        triple("http://e/1", "http://example.org/ontology#hasName", "A").with_confidence(7),
        triple("http://e/1", "http://example.org/ontology#hasName", "A").with_confidence(9),
        triple("e/2", "http://example.org/ontology#hasName", "B"),
        triple("http://e/3", "http://example.org/ontology#unknown", "C"),
        triple("http://e/4", "http://example.org/path/worksFor", "D"),
        triple("http://e/5", "http://example.org/a#b/locatedIn", "E"),
        triple("http://e/6", "http://example.org/a/b#x#hasRole", "F"),
    ];
    let unique = x.deduplicate_triples(triples.clone());
    assert_eq!(unique.len(), 6);
    assert_eq!(unique[0].confidence_bits, 7);
    let valid = x.apply_validation_rules(triples.clone());
    let subjects: Vec<&str> = valid.iter().map(|t| t.subject.as_str()).collect();
    assert_eq!(subjects, vec!["http://e/1", "http://e/1", "http://e/4", "http://e/5", "http://e/6"]);
    let processed = x.post_process_triples(triples.clone());
    let subjects: Vec<&str> = processed.iter().map(|t| t.subject.as_str()).collect();
    assert_eq!(subjects, vec!["http://e/1", "http://e/4", "http://e/5", "http://e/6"]);
    assert!(x.is_valid(&triples[0]));
    assert!(!x.is_valid(&triples[2]));

    let mut config = Configuration::example();
    config.validation_rules = vec!["something_else".to_string()];
    config.post_processing.deduplicate = false;
    let lenient = RdfExtractor::new(config);
    assert_eq!(lenient.post_process_triples(triples.clone()).len(), 7);
    let mut config = Configuration::example();
    config.validation_rules.clear();
    let no_rules = RdfExtractor::new(config);
    assert_eq!(no_rules.post_process_triples(triples).len(), 6);
}

fn result(source: &str, triples: Vec<RdfTriple>) -> ExtractionResult {
    ExtractionResult::new(
        "id".to_string(),
        "2024-01-01T00:00:00Z".to_string(),
        source.to_string(),
        "config".to_string(),
        1.5f64.to_bits(),
    )
    .with_triples(triples)
    .with_error("ignored".to_string())
}

#[test]
fn results_are_merged_into_one() {
    let x = extractor();
    let a = result("a.pdf", vec![triple("http://e/1", "p", "A"), triple("http://e/2", "p", "B")]);
    let b = result("b.pdf", vec![triple("http://e/1", "p", "A"), triple("http://e/3", "p", "C")]);
    let merged = x
        .merge_results(vec![a, b], "m".to_string(), "2024-01-02T00:00:00Z".to_string(), 3.0f64.to_bits())
        .unwrap();
    assert_eq!(merged.id, "m");
    assert_eq!(merged.document_source, "merged");
    assert_eq!(merged.config_name, "Example RDF Extraction Config");
    assert_eq!(f64::from_bits(merged.processing_time_bits), 3.0);
    assert_eq!(merged.triples.len(), 3);
    assert!(merged.errors.is_empty());
    assert_eq!(
        merged.metadata.to_pairs(),
        vec![
            ("source_count".to_string(), "2".to_string()),
            ("sources".to_string(), "a.pdf, b.pdf".to_string()),
            ("total_triples".to_string(), "3".to_string()),
        ]
    );
    let nothing = x.merge_results(vec![], "m".to_string(), "t".to_string(), 0);
    assert_eq!(nothing.unwrap_err(), ExtractionError::NothingToMerge);
    assert_eq!(ExtractionError::NothingToMerge.message(), "Cannot merge empty results");
}

#[test]
fn an_extraction_ends_in_one_of_three_ways() {
    let x = extractor();
    let failed = x.document_failure("i".to_string(), "t".to_string(), "a.pdf", "no such file", 0);
    assert_eq!(failed.errors, vec!["Failed to process document: no such file"]);
    assert!(failed.triples.is_empty());
    let silent = x.generation_failure("i".to_string(), "t".to_string(), "a.pdf", "timeout", 0);
    assert_eq!(silent.errors, vec!["LLM extraction failed: timeout"]);
    let mut metadata = TextMap::new();
    metadata.insert("source".to_string(), "a.pdf".to_string());
    metadata.insert("llm_model".to_string(), "old".to_string());
    let answer = ResponseNode::List(vec![item("acme", "hasName", "Acme"), item("acme", "hasName", "Acme")]);
    let done = x
        .complete_extraction("i".to_string(), "t".to_string(), "a.pdf", metadata, "qwen", &answer, 9)
        .unwrap();
    assert_eq!(done.triples.len(), 1);
    assert_eq!(done.processing_time_bits, 9);
    assert_eq!(
        done.metadata.to_pairs(),
        vec![
            ("source".to_string(), "a.pdf".to_string()),
            ("llm_model".to_string(), "qwen".to_string()),
            ("extraction_config".to_string(), "Example RDF Extraction Config".to_string()),
            ("num_questions".to_string(), "2".to_string()),
        ]
    );
    let broken = ResponseNode::Record(vec![field("triples", ResponseNode::Other)]);
    assert!(x
        .complete_extraction("i".to_string(), "t".to_string(), "a", TextMap::new(), "m", &broken, 0)
        .is_err());
}

#[test]
fn a_request_carries_the_conversation() {
    let messages = build_messages("question", Some("be brief"));
    assert_eq!(messages.len(), 2);
    assert_eq!((messages[0].role.as_str(), messages[0].content.as_str()), ("system", "be brief"));
    assert_eq!((messages[1].role.as_str(), messages[1].content.as_str()), ("user", "question"));
    assert_eq!(build_messages("q", None).len(), 1);
    let request = build_request("m", "q", None, 0.3f32.to_bits(), 100);
    assert_eq!(request.model, "m");
    assert_eq!(request.messages.len(), 1);
    assert_eq!(request.max_tokens, 100);
    assert_eq!(request.top_p_bits.map(f32::from_bits), Some(0.9));
    assert_eq!(request.frequency_penalty_bits.map(f32::from_bits), Some(0.0));
    assert_eq!(request.presence_penalty_bits, Some(NO_PENALTY));
    assert_eq!(f32::from_bits(TOP_P), 0.9);
    assert!(request.stop.is_none());
    assert_eq!(
        json_prompt("Extract."),
        "Extract.\n\nPlease respond with valid JSON only. Do not include any markdown formatting or explanation text."
    );
}

#[test]
fn addresses_of_the_service() {
    assert_eq!(trim_base_url("http://localhost:8000///"), "http://localhost:8000");
    assert_eq!(trim_base_url("http://localhost:8000"), "http://localhost:8000");
    assert_eq!(trim_base_url("///"), "");
    assert_eq!(trim_base_url(""), "");
    assert_eq!(health_url("http://h"), "http://h/health");
    assert_eq!(models_url("http://h"), "http://h/v1/models");
    assert_eq!(completions_url("http://h"), "http://h/v1/chat/completions");
    assert_eq!(bearer("k"), "Bearer k");
}

#[test]
fn code_fences_are_stripped() {
    assert_eq!(strip_code_fence("```json\n[1]\n```"), "[1]");
    assert_eq!(strip_code_fence("  ```json[1]```  "), "[1]");
    assert_eq!(strip_code_fence("```\n{\"a\": 1}\n```\n"), "{\"a\": 1}");
    assert_eq!(strip_code_fence("``````"), "");
    assert_eq!(strip_code_fence("```json```"), "");
    assert_eq!(strip_code_fence("[1]"), "[1]");
    assert_eq!(strip_code_fence("```json [1]"), "```json [1]");
    assert_eq!(strip_code_fence("[1]```"), "[1]```");
    assert_eq!(strip_code_fence("```"), "```");
    assert_eq!(strip_code_fence("`````"), "`````");
    assert_eq!(strip_code_fence("```js```"), "js");
}

#[test]
fn the_extraction_prompt_has_four_sections() {
    let config = Configuration::example();
    let prompt = PromptBuilder::build_extraction_prompt("Acme was founded.", &config.extraction_questions, &config.rdf_schema);
    let expected_start = "## Document Content\nAcme was founded.\n\n## Information to Extract\n\
        - org_name: What organizations are mentioned in the document?\n  Constraints: Must be proper noun, Full organization name\n\
        - person_name: What people are mentioned with their roles?\n  Constraints: Include full name, Include job title if mentioned\n\
        \n## RDF Schema\nBase URI: http://example.org/resource/\nNamespace: http://example.org/ontology#\n\
        \nAvailable Predicates:\n- hasName: Entity has name\n- hasRole: Person has role\n- worksFor: Person works for organization\n- locatedIn: Entity is located in place\n\
        \n## Instructions\n\nExtract the requested information from the document and return it as RDF triples.\n";
    assert!(prompt.starts_with(expected_start), "{}", prompt);
    assert!(prompt.ends_with("    \"object\": \"Acme Corporation\"\n  }\n]\n"));
    assert!(PromptBuilder::get_system_prompt().starts_with("You are an expert knowledge extraction system"));
    assert!(PromptBuilder::get_system_prompt().ends_with("Return your response as a JSON array of triple objects."));
}

#[test]
fn the_extraction_prompt_cuts_long_documents() {
    let mut config = Configuration::example();
    config.rdf_schema.predicates = TextMap::new();
    config.extraction_questions[0].constraints.clear();
    let long: String = "é".repeat(4001);
    let prompt = PromptBuilder::build_extraction_prompt(&long, &config.extraction_questions[..1], &config.rdf_schema);
    let expected = format!(
        "## Document Content\n{}\n\n## Information to Extract\n- org_name: What organizations are mentioned in the document?\n\n## RDF Schema\nBase URI: http://example.org/resource/\nNamespace: http://example.org/ontology#\n\n## Instructions\n",
        "é".repeat(4000)
    );
    assert!(prompt.starts_with(&expected));
    assert_eq!(cut_document(&long), &long[..8000]);
    assert_eq!(cut_document(&"é".repeat(4000)), "é".repeat(4000));
    assert_eq!(cut_document(&"x".repeat(8001)), "x".repeat(8000));
    assert_eq!(cut_document(&"€".repeat(3000)), "€".repeat(2666));
    assert_eq!(cut_document(&format!("x{}", "é".repeat(4000))), format!("x{}", "é".repeat(3999)));
    assert_eq!(cut_document(&format!("{}\u{1F600}", "x".repeat(7999))), "x".repeat(7999));
    assert_eq!(cut_document(""), "");
    let exact: String = "x".repeat(8000);
    let prompt = PromptBuilder::build_extraction_prompt(&exact, &[], &config.rdf_schema);
    assert!(prompt.starts_with(&format!("## Document Content\n{}\n\n## Information to Extract\n\n## RDF Schema\n", exact)));
    assert_eq!(join_all(&vec!["a".to_string(), "b".to_string(), "c".to_string()], ", "), "a, b, c");
    assert_eq!(join_all(&vec!["a".to_string()], ", "), "a");
    assert_eq!(join_all(&vec![], ", "), "");
}

#[test]
fn a_handler_is_chosen_by_scheme_and_extension() {
    let processor = DocumentProcessor::new();
    assert_eq!(processor.get_handler("http://ex.org/page.pdf"), HandlerKind::Url);
    assert_eq!(processor.get_handler("https://ex.org/"), HandlerKind::Url);
    assert_eq!(processor.get_handler("report.pdf"), HandlerKind::Pdf);
    assert_eq!(processor.get_handler("dir.d/report.pdf"), HandlerKind::Pdf);
    assert_eq!(processor.get_handler("notes.md"), HandlerKind::Text);
    assert_eq!(processor.get_handler("notes.txt"), HandlerKind::Text);
    assert_eq!(processor.get_handler("notes.text"), HandlerKind::Text);
    assert_eq!(processor.get_handler("data.csv"), HandlerKind::Text);
    assert_eq!(processor.get_handler("README"), HandlerKind::Text);
    assert_eq!(processor.get_handler(".pdf"), HandlerKind::Text);
    assert_eq!(processor.get_handler("report.PDF"), HandlerKind::Text);
    assert_eq!(processor.get_handler("shortcut.url"), HandlerKind::Url);
    assert_eq!(processor.get_handler(""), HandlerKind::Text);
    assert_eq!(processor.get_handler("pdf"), HandlerKind::Text);
    assert_eq!(processor.get_handler("a.pdf.txt"), HandlerKind::Text);
    assert_eq!(processor.get_handler("a.txt.pdf"), HandlerKind::Pdf);
    assert_eq!(processor.handler_for_extension(Some("pdf")), HandlerKind::Pdf);
    assert_eq!(processor.handler_for_extension(Some("url")), HandlerKind::Url);
    assert_eq!(processor.handler_for_extension(Some("")), HandlerKind::Text);
    assert_eq!(processor.handler_for_extension(None), HandlerKind::Text);
    assert_eq!(HandlerKind::Pdf.name(), "pdf");
}

#[test]
fn files_are_described_by_source_type_and_size() {
    assert_eq!(
        PdfHandler.metadata("a.pdf", Some(1234)).to_pairs(),
        vec![
            ("source".to_string(), "a.pdf".to_string()),
            ("type".to_string(), "pdf".to_string()),
            ("size".to_string(), "1234".to_string()),
        ]
    );
    assert_eq!(
        TextHandler.metadata("a.txt", None).to_pairs(),
        vec![("source".to_string(), "a.txt".to_string()), ("type".to_string(), "text".to_string())]
    );
    assert_eq!(describe_file("x", HandlerKind::Url, Some(u64::MAX)).get("size").unwrap(), &u64::MAX.to_string());
    assert_eq!(describe_file("x", HandlerKind::Url, Some(0)).get("size").unwrap(), "0");
}

#[test]
fn bytes_are_decoded_by_their_byte_order_mark() {
    let utf8 = TextHandler.decode(b"\xEF\xBB\xBFhi").unwrap();
    assert_eq!((utf8.text.as_str(), utf8.had_errors), ("hi", false));
    let plain = TextHandler.decode("grüß".as_bytes()).unwrap();
    assert_eq!((plain.text.as_str(), plain.had_errors), ("grüß", false));
    let utf16 = TextHandler.decode(b"\xFF\xFEh\x00i\x00").unwrap();
    assert_eq!((utf16.text.as_str(), utf16.had_errors), ("hi", false));
    let broken = TextHandler.decode(b"a\xFFb").unwrap();
    assert_eq!((broken.text.as_str(), broken.had_errors), ("a\u{fffd}b", true));
    assert_eq!(TextHandler.decode(b"").unwrap().text, "");
}

#[test]
fn the_text_of_a_page_comes_from_its_body() {
    let html = "<html><head><title>T &amp; U</title><meta name=\"description\" content=\"A page\">\
        <meta name=\"viewport\" content=\"wide\"><meta content=\"nameless\"><meta name=\"author\" content=\"Ada\"></head>\
        <body> <p>Hello</p><script>var x;</script> <p>world </p></body></html>";
    let handler = UrlHandler;
    assert_eq!(handler.extract_text_from_html(html), "Hello var x;   world");
    assert_eq!(handler.extract_text_from_html(""), "");
    let head = handler.head_of(html);
    assert_eq!(head.title.as_deref(), Some("T &amp; U"));
    assert_eq!(
        head.meta,
        vec![
            ("description".to_string(), "A page".to_string()),
            ("viewport".to_string(), "wide".to_string()),
            ("author".to_string(), "Ada".to_string()),
        ]
    );
    assert_eq!(
        handler.metadata("http://ex.org", &head).to_pairs(),
        vec![
            ("source".to_string(), "http://ex.org".to_string()),
            ("type".to_string(), "url".to_string()),
            ("title".to_string(), "T &amp; U".to_string()),
            ("description".to_string(), "A page".to_string()),
            ("author".to_string(), "Ada".to_string()),
        ]
    );
    let bare = PageHead { title: None, meta: vec![("keywords".to_string(), "a".to_string()), ("keywords".to_string(), "b".to_string())] };
    assert_eq!(
        handler.metadata("s", &bare).to_pairs(),
        vec![
            ("source".to_string(), "s".to_string()),
            ("type".to_string(), "url".to_string()),
            ("keywords".to_string(), "b".to_string()),
        ]
    );
}

#[test]
fn the_text_of_a_page_falls_back_to_all_elements() {
    let element = |name: &str, pieces: &[&str]| PageElement {
        name: name.to_string(),
        pieces: pieces.iter().map(|p| p.to_string()).collect(),
    };
    let handler = UrlHandler;
    let body = vec![element("body", &["  ", "\n"])];
    let all = vec![
        element("html", &["a", "b"]),
        element("script", &["code"]),
        element("style", &["css"]),
        element("p", &[" c "]),
        element("div", &[]),
    ];
    assert_eq!(handler.text_of_page(&body, &all), "a b\nc");
    let body = vec![element("body", &["x", "y"]), element("body", &["z"])];
    assert_eq!(handler.text_of_page(&body, &all), "x y\nz");
    let body = vec![element("script", &["kept"])];
    assert_eq!(handler.text_of_page(&body, &all), "kept");
    assert_eq!(handler.text_of_page(&vec![], &vec![]), "");
}
