//! Controlled documents: the document model, its compliance validation,
//! and the document manager.

use vstd::prelude::*;
use vstd::string::StringExecFns;
use vstd::string::StringSliceAdditionalSpecFns;
use crate::config::is_blank_text;
use crate::error::QmsError;

verus! {

/// Document status for workflow control.
#[derive(Debug, Clone, Copy, PartialEq, Eq, Structural)]
pub enum DocumentStatus {
    Draft,
    UnderReview,
    Approved,
    Effective,
    Obsolete,
    Retired,
}

/// Document type classification.
#[derive(Debug, Clone, Copy, PartialEq, Eq, Structural)]
pub enum DocumentType {
    /// Standard operating procedure.
    SOP,
    WorkInstruction,
    Policy,
    Form,
    Template,
    Specification,
    TestMethod,
    ValidationProtocol,
    Report,
    Manual,
}

/// Controlled document.
#[derive(Debug)]
pub struct Document {
    /// Unique identifier.
    pub id: String,
    /// Controlled document number.
    pub document_number: String,
    /// Title.
    pub title: String,
    /// Version.
    pub version: String,
    /// Workflow status.
    pub status: DocumentStatus,
    /// Classification.
    pub document_type: DocumentType,
    /// Hash of the document contents.
    pub content_hash: String,
    /// Where the document file lives, if anywhere.
    pub file_path: Option<String>,
    /// Who created it.
    pub created_by: String,
    /// Who approved it, once approved.
    pub approved_by: Option<String>,
    /// When it takes effect, seconds since the Unix epoch.
    pub effective_date: Option<i64>,
    /// When it is due for review.
    pub review_date: Option<i64>,
    /// When it was retired.
    pub retirement_date: Option<i64>,
    /// Creation instant.
    pub created_at: i64,
    /// Last update instant.
    pub updated_at: i64,
}

impl Document {
    /// Validate the document for compliance: a document number and a
    /// title must be provided.
    pub fn validate(&self) -> (r: Result<(), QmsError>)
        ensures
            r is Ok <==> (!is_blank_text(self.document_number@) && !is_blank_text(self.title@)),
            is_blank_text(self.document_number@) ==> (r matches Err(e)
                && e is DocumentControl),
            !is_blank_text(self.document_number@) && is_blank_text(self.title@) ==> (r matches Err(
                e,
            ) && e is DocumentControl),
    {
        if !has_visible_text(self.document_number.as_str()) {
            return Err(QmsError::DocumentControl {
                message: String::from_str("A document number is required"),
            });
        }
        if !has_visible_text(self.title.as_str()) {
            return Err(QmsError::DocumentControl {
                message: String::from_str("A document title is required"),
            });
        }
        Ok(())
    }
}

/// Check that a string holds at least one non-whitespace byte.
fn has_visible_text(s: &str) -> (r: bool)
    ensures
        r == !is_blank_text(s@),
{
    let bytes = s.as_bytes();
    let mut i: usize = 0;
    while i < bytes.len()
        invariant
            0 <= i <= bytes@.len(),
            bytes@ == s.spec_bytes(),
            forall|j: int| 0 <= j < i ==> crate::config::is_blank_byte(#[trigger] bytes@[j]),
        decreases bytes@.len() - i,
    {
        let b = bytes[i];
        if !(b == 9 || b == 10 || b == 11 || b == 12 || b == 13 || b == 32) {
            return true;
        }
        i += 1;
    }
    false
}

/// Document control manager.
pub struct DocumentManager {
    documents: Vec<Document>,
}

impl DocumentManager {
    /// The registered documents, in registration order.
    pub closed spec fn docs(self) -> Seq<Document> {
        self.documents@
    }

    /// Create a new document manager.
    pub fn new() -> (r: DocumentManager)
        ensures
            r.docs().len() == 0,
    {
        DocumentManager { documents: Vec::new() }
    }

    /// Register a new controlled document after validating it; returns
    /// its identifier.
    pub fn create_document(&mut self, document: Document) -> (r: Result<String, QmsError>)
        ensures
            r is Ok <==> (!is_blank_text(document.document_number@) && !is_blank_text(
                document.title@,
            )),
            r matches Ok(id) ==> (id@ == document.id@ && final(self).docs().len() == old(self).docs().len() + 1),
            r is Err ==> final(self).docs() == old(self).docs(),
    {
        if let Err(e) = document.validate() {
            return Err(e);
        }
        let id = document.id.clone();
        self.documents.push(document);
        Ok(id)
    }

    /// Look a document up by identifier: the first registered document
    /// carrying it, if any.
    pub fn get_document(&self, id: &str) -> (r: Result<Option<&Document>, QmsError>)
        ensures
            r matches Ok(Some(d)) ==> d.id@ == id@,
            (r matches Ok(o) && o is None) ==> (forall|i: int|
                0 <= i < self.docs().len() ==> (#[trigger] self.docs()[i]).id@ != id@),
    {
        let target = id.to_owned();
        let mut i: usize = 0;
        while i < self.documents.len()
            invariant
                0 <= i <= self.docs().len(),
                target@ == id@,
                forall|j: int| 0 <= j < i ==> (#[trigger] self.docs()[j]).id@ != id@,
            decreases self.docs().len() - i,
        {
            if self.documents[i].id == target {
                return Ok(Some(&self.documents[i]));
            }
            i += 1;
        }
        Ok(None)
    }

    /// Number of registered documents.
    pub fn len(&self) -> (r: usize)
        ensures
            r == self.docs().len(),
    {
        self.documents.len()
    }
}

} // verus!
