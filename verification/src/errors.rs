use vstd::prelude::*;

verus! {

/// Errors surfaced by the toolkit.
///
/// Transport-level failures are carried as plain data (status code and body
/// text); being over quota is never an error by itself — the rate limiter
/// only ever reports a wait — and `RateLimitExceeded` is produced only after
/// the retry orchestrator has exhausted its bounded attempts.
#[derive(Debug, Clone)]
pub enum VoyageError {
    MissingDocuments(String),
    MissingEmbeddings(String),
    SearchBuilderError(String),
    SearchIndexNotBuilt,
    SearchDimensionMismatch { expected: usize, actual: usize },
    SearchResultError(String),
    BadRequest { message: String },
    Unauthorized,
    Forbidden(String),
    NotFound(String),
    RateLimitExceeded { reset_in_ms: u64 },
    InternalServerError { message: String },
    ServiceUnavailable,
    MissingApiKey,
    JsonError(String),
    TokenizerError(String),
    RequestError(String),
    UnhandledStatusCode(u16, String),
    ApiError(u16, String),
    InputListTooLong,
    TokenLimitExceeded(usize, usize),
    TooManyDocuments(usize),
    QueryDocumentTokenLimitExceeded(usize, usize),
    BuilderError(String),
    NoResults,
}

/// Errors raised while assembling a request.
#[derive(Debug, Clone)]
pub enum VoyageBuilderError {
    ApiKeyNotSet,
    MissingField(String),
    InputListTooLong,
    MissingInput,
    MissingModel,
    MissingVoyage,
}

/// Maps an HTTP status from the embeddings or reranking endpoint to the
/// error reported to callers. Success statuses are handled by the caller;
/// this classifies failures only.
pub fn classify_status(status: u16, body: String) -> (e: VoyageError)
    requires
        status != 200,
    ensures
        status == 401 ==> e is Unauthorized,
        status == 403 ==> (e matches VoyageError::Forbidden(b) && b@ == body@),
        status != 401 && status != 403 ==> (e matches VoyageError::ApiError(
            s,
            b,
        ) && s == status && b@ == body@),
{
    if status == 401 {
        VoyageError::Unauthorized
    } else if status == 403 {
        VoyageError::Forbidden(body)
    } else {
        VoyageError::ApiError(status, body)
    }
}

impl From<String> for VoyageError {
    fn from(message: String) -> (e: Self) {
        VoyageError::BuilderError(message)
    }
}

impl vstd::std_specs::convert::FromSpecImpl<String> for VoyageError {
    open spec fn obeys_from_spec() -> bool {
        true
    }

    open spec fn from_spec(message: String) -> Self {
        VoyageError::BuilderError(message)
    }
}

impl VoyageError {
    /// Maps a request-assembly failure to the error surfaced to callers.
    pub fn from_builder(error: VoyageBuilderError) -> (e: Self)
        ensures
            error matches VoyageBuilderError::MissingField(f) ==> (e
                matches VoyageError::BuilderError(m) && m == f),
            error is InputListTooLong ==> e is InputListTooLong,
            error is ApiKeyNotSet ==> e is MissingApiKey,
            error is MissingInput ==> (e matches VoyageError::BuilderError(m) && m@
                == "input is required"@),
            error is MissingModel ==> (e matches VoyageError::BuilderError(m) && m@
                == "model is required"@),
            error is MissingVoyage ==> (e matches VoyageError::BuilderError(m) && m@
                == "client is required"@),
    {
        match error {
            VoyageBuilderError::MissingField(f) => VoyageError::BuilderError(f),
            VoyageBuilderError::InputListTooLong => VoyageError::InputListTooLong,
            VoyageBuilderError::ApiKeyNotSet => VoyageError::MissingApiKey,
            VoyageBuilderError::MissingInput => VoyageError::BuilderError(
                "input is required".to_owned(),
            ),
            VoyageBuilderError::MissingModel => VoyageError::BuilderError(
                "model is required".to_owned(),
            ),
            VoyageBuilderError::MissingVoyage => VoyageError::BuilderError(
                "client is required".to_owned(),
            ),
        }
    }
}

} // verus!
