use vstd::prelude::*;

verus! {

/// The failure taxonomy of the acquisition pipeline.
///
/// `IdentifierParse` is fatal for a whole resolution; the others are fatal
/// for the one task (or the one stream) they occur in.
#[derive(Debug, PartialEq, Eq, Structural)]
pub enum DlError {
    /// The URL matches none of the recognized identifier shapes, or a
    /// matched identifier does not fit the platform's numeric range.
    IdentifierParse,
    /// An episode-id resolution found no episode record with the wanted id.
    EpisodeNotFound,
    /// No known play-info marker was found in the page, or the matching end
    /// marker is missing after it.
    Extraction,
    /// The sliced play-info text was not a document of the expected shape.
    Decode,
    /// A stream kind had an empty candidate pool.
    StreamSelection,
    /// A stream request came back with a non-OK status.
    BadStatus(u16),
    /// A stream response carried no content length.
    MissingContentLength,
    /// The external multiplexer failed.
    Merge,
    /// The run was interrupted from outside.
    Interrupted,
}

impl DlError {
    /// A human-readable description of the error.
    pub fn message(&self) -> (r: &'static str)
        ensures
            r@ == (match self {
                DlError::IdentifierParse => "failed to parse an identifier from the URL"@,
                DlError::EpisodeNotFound => "no episode with the requested id"@,
                DlError::Extraction => "failed to find play info"@,
                DlError::Decode => "failed to decode play info"@,
                DlError::StreamSelection => "no stream candidate available"@,
                DlError::BadStatus(_) => "download failed with a non-OK status"@,
                DlError::MissingContentLength => "failed to get content length"@,
                DlError::Merge => "failed to merge video and audio"@,
                DlError::Interrupted => "task canceled by user"@,
            }),
    {
        match self {
            DlError::IdentifierParse => "failed to parse an identifier from the URL",
            DlError::EpisodeNotFound => "no episode with the requested id",
            DlError::Extraction => "failed to find play info",
            DlError::Decode => "failed to decode play info",
            DlError::StreamSelection => "no stream candidate available",
            DlError::BadStatus(_) => "download failed with a non-OK status",
            DlError::MissingContentLength => "failed to get content length",
            DlError::Merge => "failed to merge video and audio",
            DlError::Interrupted => "task canceled by user",
        }
    }
}

} // verus!
