use vstd::prelude::*;
use crate::errors::VoyageBuilderError;
use crate::models::embeddings::{
    EmbeddingModel,
    EmbeddingsInput,
    EmbeddingsRequest,
    EncodingFormat,
    InputType,
};

verus! {

/// Assembles an [`EmbeddingsRequest`] step by step. `input` and `model` are
/// required; the rest is optional.
pub struct EmbeddingsRequestBuilder {
    pub input: Option<EmbeddingsInput>,
    pub model: Option<EmbeddingModel>,
    pub input_type: Option<InputType>,
    pub truncation: Option<bool>,
    pub encoding_format: Option<EncodingFormat>,
}

impl EmbeddingsRequestBuilder {
    pub fn new() -> (r: Self)
        ensures
            r.input is None,
            r.model is None,
            r.input_type is None,
            r.truncation is None,
            r.encoding_format is None,
    {
        EmbeddingsRequestBuilder {
            input: None,
            model: None,
            input_type: None,
            truncation: None,
            encoding_format: None,
        }
    }

    pub fn input(self, input: EmbeddingsInput) -> (r: Self)
        ensures
            r.input == Some(input),
            r.model == self.model,
            r.input_type == self.input_type,
            r.truncation == self.truncation,
            r.encoding_format == self.encoding_format,
    {
        EmbeddingsRequestBuilder { input: Some(input), ..self }
    }

    /// Sets a single text as the input.
    pub fn document(self, document: String) -> (r: Self)
        ensures
            r.input == Some(EmbeddingsInput::Single(document)),
            r.model == self.model,
            r.input_type == self.input_type,
            r.truncation == self.truncation,
            r.encoding_format == self.encoding_format,
    {
        EmbeddingsRequestBuilder { input: Some(EmbeddingsInput::Single(document)), ..self }
    }

    /// Sets a batch of texts as the input.
    pub fn documents(self, documents: Vec<String>) -> (r: Self)
        ensures
            r.input == Some(EmbeddingsInput::Multiple(documents)),
            r.model == self.model,
            r.input_type == self.input_type,
            r.truncation == self.truncation,
            r.encoding_format == self.encoding_format,
    {
        EmbeddingsRequestBuilder { input: Some(EmbeddingsInput::Multiple(documents)), ..self }
    }

    pub fn model(self, model: EmbeddingModel) -> (r: Self)
        ensures
            r.model == Some(model),
            r.input == self.input,
            r.input_type == self.input_type,
            r.truncation == self.truncation,
            r.encoding_format == self.encoding_format,
    {
        EmbeddingsRequestBuilder { model: Some(model), ..self }
    }

    pub fn input_type(self, input_type: InputType) -> (r: Self)
        ensures
            r.input_type == Some(input_type),
            r.input == self.input,
            r.model == self.model,
            r.truncation == self.truncation,
            r.encoding_format == self.encoding_format,
    {
        EmbeddingsRequestBuilder { input_type: Some(input_type), ..self }
    }

    pub fn truncation(self, truncation: bool) -> (r: Self)
        ensures
            r.truncation == Some(truncation),
            r.input == self.input,
            r.model == self.model,
            r.input_type == self.input_type,
            r.encoding_format == self.encoding_format,
    {
        EmbeddingsRequestBuilder { truncation: Some(truncation), ..self }
    }

    pub fn encoding_format(self, encoding_format: EncodingFormat) -> (r: Self)
        ensures
            r.encoding_format == Some(encoding_format),
            r.input == self.input,
            r.model == self.model,
            r.input_type == self.input_type,
            r.truncation == self.truncation,
    {
        EmbeddingsRequestBuilder { encoding_format: Some(encoding_format), ..self }
    }

    /// Assembles the request. Fails when the input or the model is missing,
    /// naming the missing piece.
    pub fn build(self) -> (r: Result<EmbeddingsRequest, VoyageBuilderError>)
        ensures
            self.input is None ==> (r matches Err(e) && e matches VoyageBuilderError::MissingField(
                f,
            ) && f@ == "input"@),
            self.input is Some && self.model is None ==> r == Err::<
                EmbeddingsRequest,
                VoyageBuilderError,
            >(VoyageBuilderError::MissingModel),
            self.input is Some && self.model is Some ==> (r matches Ok(req) && Some(req.input)
                == self.input && Some(req.model) == self.model && req.input_type == self.input_type
                && req.truncation == self.truncation && req.encoding_format
                == self.encoding_format),
    {
        let input = match self.input {
            Some(input) => input,
            None => {
                return Err(VoyageBuilderError::MissingField("input".to_owned()));
            },
        };
        let model = match self.model {
            Some(model) => model,
            None => {
                return Err(VoyageBuilderError::MissingModel);
            },
        };
        Ok(EmbeddingsRequest {
            input,
            model,
            input_type: self.input_type,
            truncation: self.truncation,
            encoding_format: self.encoding_format,
        })
    }
}

} // verus!
