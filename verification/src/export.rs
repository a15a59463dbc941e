//! Exporting a document.

use vstd::prelude::*;

verus! {

/// Why a document is not exported.
#[derive(Debug, Clone, Copy, PartialEq, Eq, Structural)]
pub enum ExportError {
    Disabled,
}

impl ExportError {
    /// The error in words.
    pub fn message(&self) -> (r: &'static str)
        ensures
            r@ == "PDF export is disabled in this build"@,
    {
        "PDF export is disabled in this build"
    }
}

/// A document as a printable file: there is none in this build.
pub fn render_pdf(_markdown: &str, _title: &str, _base_path: Option<&str>) -> (r: Result<
    Vec<u8>,
    ExportError,
>)
    ensures
        r is Err,
        r->Err_0 == ExportError::Disabled,
{
    Err(ExportError::Disabled)
}

} // verus!
