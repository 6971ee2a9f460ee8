//! The attachment value and its extraction from a located part.

use vstd::prelude::*;

use crate::mime::Part;

verus! {

/// Why extraction of a located part failed.
#[derive(Clone, Copy, PartialEq, Eq, Structural, Debug)]
pub enum ExtractError {
    /// The part's raw body is empty.
    MissingBody,
    /// The part declares no filename, or declares an empty one.
    MissingName,
}

/// A report attachment on its way through the pipeline: the raw bytes as
/// received, the media type that justified selecting the part, the declared
/// filename, and — once decompression has run — the recovered document.
#[derive(Debug)]
pub struct Attachment {
    pub content: Vec<u8>,
    pub decompressed: Option<Vec<u8>>,
    pub mimetype: String,
    pub name: String,
}

impl Attachment {
    /// A well-formed attachment always carries a non-empty name.
    pub open spec fn wf(self) -> bool {
        self.name@.len() > 0
    }
}

/// What extraction returns for a part: the raw body bytes, the declared media
/// type and the declared filename on success, and otherwise exactly which
/// ingredient was missing. The body is checked before the name.
pub open spec fn spec_extract(p: Part) -> Result<(Seq<u8>, Seq<char>, Seq<char>), ExtractError> {
    if p.body@.len() == 0 {
        Err(ExtractError::MissingBody)
    } else {
        match p.filename {
            Some(n) => if n@.len() == 0 {
                Err(ExtractError::MissingName)
            } else {
                Ok((p.body@, p.mimetype@, n@))
            },
            None => Err(ExtractError::MissingName),
        }
    }
}

/// Pulls the raw bytes and the declared filename out of the located part,
/// failing when the body is empty or the filename is absent or empty.
pub fn extract(p: &Part) -> (r: Result<Attachment, ExtractError>)
    ensures
        match r {
            Ok(a) => spec_extract(*p) == Ok::<_, ExtractError>((a.content@, a.mimetype@, a.name@))
                && a.decompressed is None && a.wf(),
            Err(e) => spec_extract(*p) == Err::<(Seq<u8>, Seq<char>, Seq<char>), _>(e),
        },
{
    if p.body.len() == 0 {
        return Err(ExtractError::MissingBody);
    }
    match &p.filename {
        None => Err(ExtractError::MissingName),
        Some(n) => {
            if n.as_str().is_empty() {
                Err(ExtractError::MissingName)
            } else {
                Ok(
                    Attachment {
                        content: vstd::slice::slice_to_vec(p.body.as_slice()),
                        decompressed: None,
                        mimetype: p.mimetype.clone(),
                        name: n.clone(),
                    },
                )
            }
        },
    }
}

/// When the located part carries both a non-empty body and a non-empty
/// declared filename, extraction succeeds and returns exactly those bytes,
/// that media type, and that name.
pub proof fn lemma_extract_succeeds(p: Part)
    requires
        p.body@.len() > 0,
        p.filename matches Some(n) && n@.len() > 0,
    ensures
        p.filename matches Some(n) && spec_extract(p) == Ok::<_, ExtractError>(
            (p.body@, p.mimetype@, n@),
        ),
{
}

} // verus!
