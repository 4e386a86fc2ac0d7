//! Export of a store by format name.
//!
//! The export knows three formats: Turtle, N-Triples and the plain record
//! array. JSON-LD and RDF/XML are not among them: a caller who wants those
//! encodings uses the serializer.

use vstd::prelude::*;

use crate::knowledge_graph::store::{in_memory_path, KnowledgeGraph, KnowledgeGraphError};
use crate::serialization::{ntriples_document, turtle_document, Encoded, RdfSerializer};
use crate::text::{lowercase, same_text, to_lowercase};

verus! {

/// The formats that the export knows.
#[derive(Debug, Clone, Copy, PartialEq, Eq, Structural)]
pub enum ExportFormat {
    Turtle,
    NTriples,
    Json,
}

/// The format that a name stands for, the name being in lower case:
/// `turtle` or `ttl`, `ntriples` or `nt`, or `json`.
pub open spec fn export_format_of(normalized: Seq<char>) -> Option<ExportFormat> {
    if normalized == "turtle"@ || normalized == "ttl"@ {
        Some(ExportFormat::Turtle)
    } else if normalized == "ntriples"@ || normalized == "nt"@ {
        Some(ExportFormat::NTriples)
    } else if normalized == "json"@ {
        Some(ExportFormat::Json)
    } else {
        None
    }
}

impl ExportFormat {
    /// Recognises a format by its name in lower case.
    pub fn from_normalized(normalized: &str) -> (format: Option<ExportFormat>)
        ensures
            format == export_format_of(normalized@),
    {
        if same_text(normalized, "turtle") || same_text(normalized, "ttl") {
            Some(ExportFormat::Turtle)
        } else if same_text(normalized, "ntriples") || same_text(normalized, "nt") {
            Some(ExportFormat::NTriples)
        } else if same_text(normalized, "json") {
            Some(ExportFormat::Json)
        } else {
            None
        }
    }
}

/// What the caller is to write, and where.
#[derive(Debug)]
pub struct FileExport {
    /// The path of the file.
    pub path: String,
    /// What the file is to hold.
    pub content: Encoded,
}

impl KnowledgeGraph {
    /// Prepares the export of the store to the file `file_path` in the format
    /// named `format`. The library writes no file: it hands back what the
    /// file is to hold. An unknown format is refused before anything is
    /// written.
    pub fn export_to_file(&self, file_path: &str, format: &str) -> (r: Result<
        FileExport,
        KnowledgeGraphError,
    >)
        ensures
            match export_format_of(lowercase(format@)) {
                Some(ExportFormat::Turtle) => r is Ok && r->Ok_0.path@ == file_path@
                    && r->Ok_0.content is Text && r->Ok_0.content->Text_0@ == turtle_document(
                    self@,
                    self.schema_of().namespace@,
                    self.schema_of().prefix@,
                ),
                Some(ExportFormat::NTriples) => r is Ok && r->Ok_0.path@ == file_path@
                    && r->Ok_0.content is Text && r->Ok_0.content->Text_0@ == ntriples_document(
                    self@,
                ),
                Some(ExportFormat::Json) => r is Ok && r->Ok_0.path@ == file_path@
                    && r->Ok_0.content is RecordArray,
                None => r is Err && r->Err_0 is UnsupportedFormat
                    && r->Err_0->UnsupportedFormat_0@ == format@,
            },
    {
        match self.export(format) {
            Ok(content) => Ok(FileExport { path: file_path.to_string(), content }),
            Err(e) => Err(e),
        }
    }

    /// What is to be written after an insert so that the store outlives the
    /// program: the statements as a record array, to the storage path. There
    /// is nothing to write for a store that lives in memory only.
    pub fn snapshot(&self) -> (r: Option<FileExport>)
        ensures
            match r {
                Some(export) => self.config_of().storage_path@ != in_memory_path()
                    && export.path@ == self.config_of().storage_path@
                    && export.content is RecordArray,
                None => self.config_of().storage_path@ == in_memory_path(),
            },
    {
        if self.is_persistent() {
            Some(
                FileExport {
                    path: self.config().storage_path.clone(),
                    content: Encoded::RecordArray,
                },
            )
        } else {
            None
        }
    }

    /// What to write to a file for the format named `format`, whatever the
    /// case of its letters: the text of the store in Turtle or N-Triples, or
    /// the instruction to write the statements as a record array. A name
    /// that the export does not know is refused and handed back.
    pub fn export(&self, format: &str) -> (r: Result<Encoded, KnowledgeGraphError>)
        ensures
            match export_format_of(lowercase(format@)) {
                Some(ExportFormat::Turtle) => r is Ok && r->Ok_0 is Text && r->Ok_0->Text_0@
                    == turtle_document(
                    self@,
                    self.schema_of().namespace@,
                    self.schema_of().prefix@,
                ),
                Some(ExportFormat::NTriples) => r is Ok && r->Ok_0 is Text && r->Ok_0->Text_0@
                    == ntriples_document(self@),
                Some(ExportFormat::Json) => r is Ok && r->Ok_0 is RecordArray,
                None => r is Err && r->Err_0 is UnsupportedFormat
                    && r->Err_0->UnsupportedFormat_0@ == format@,
            },
    {
        let normalized = to_lowercase(format);
        let serializer = RdfSerializer::new();
        match ExportFormat::from_normalized(normalized.as_str()) {
            Some(ExportFormat::Turtle) => {
                let schema = self.schema();
                Ok(
                    Encoded::Text(
                        serializer.serialize_turtle(
                            self.triples().as_slice(),
                            schema.namespace.as_str(),
                            schema.prefix.as_str(),
                        ),
                    ),
                )
            },
            Some(ExportFormat::NTriples) => {
                Ok(Encoded::Text(serializer.serialize_ntriples(self.triples().as_slice())))
            },
            Some(ExportFormat::Json) => Ok(Encoded::RecordArray),
            None => Err(KnowledgeGraphError::UnsupportedFormat(format.to_string())),
        }
    }
}

} // verus!
