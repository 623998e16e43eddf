//! Errors reported while building the intermediate representation.
use vstd::prelude::*;
use vstd::string::*;

verus! {

#[derive(Clone, Debug)]
pub enum GeneratorError {
    FileCreationError(String, String),
    CodeGenerationError(String, String),
    InvalidValueError(String),
    MissingIdError(String, String),
    ParameterError(String, String),
    StatusCodeError(String, String),
    UnsupportedError(String),
    UnsupportedPropertyError(String, String),
    ParseError(String),
    ResolveError(String),
    ObjectDatabaseDuplicateError(String),
}

fn concat3(a: &str, b: &str, c: &str) -> (r: String)
    ensures
        r@ == a@ + b@ + c@,
{
    let mut out = a.to_owned();
    out.append(b);
    out.append(c);
    out
}

/// The text that describes an error.
pub open spec fn error_message(e: GeneratorError) -> Seq<char> {
    match e {
        GeneratorError::FileCreationError(a, b) => "Unable to create file "@ + a@ + " "@ + b@,
        GeneratorError::CodeGenerationError(a, b) => "Failed to generated "@ + a@ + " code "@ + b@,
        GeneratorError::InvalidValueError(a) => "Invalid Value "@ + a@ + ""@,
        GeneratorError::MissingIdError(a, b) => a@ + " "@ + b@ + " has no id"@,
        GeneratorError::ParameterError(a, b) => a@ + " "@ + b@,
        GeneratorError::StatusCodeError(a, b) => "Failed to parse status code "@ + a@ + " "@ + b@,
        GeneratorError::UnsupportedError(a) => a@ + " is not supported"@ + ""@,
        GeneratorError::UnsupportedPropertyError(a, b) => "Unable to determine property name of "@ + a@ + " "@
            + b@,
        GeneratorError::ParseError(a) => a@,
        GeneratorError::ResolveError(a) => a@,
        GeneratorError::ObjectDatabaseDuplicateError(a) => "ObjectDatabase already contains an object "@ + a@
            + ""@,
    }
}

impl GeneratorError {
    /// A human-readable description of the error.
    pub fn message(&self) -> (r: String)
        ensures
            r@ == error_message(*self),
    {
        match self {
            GeneratorError::FileCreationError(a, b) => {
                let mut m = concat3("Unable to create file ", a.as_str(), " ");
                m.append(b.as_str());
                m
            },
            GeneratorError::CodeGenerationError(a, b) => {
                let mut m = concat3("Failed to generated ", a.as_str(), " code ");
                m.append(b.as_str());
                m
            },
            GeneratorError::InvalidValueError(a) => concat3("Invalid Value ", a.as_str(), ""),
            GeneratorError::MissingIdError(a, b) => {
                let mut m = concat3(a.as_str(), " ", b.as_str());
                m.append(" has no id");
                m
            },
            GeneratorError::ParameterError(a, b) => concat3(a.as_str(), " ", b.as_str()),
            GeneratorError::StatusCodeError(a, b) => {
                let mut m = concat3("Failed to parse status code ", a.as_str(), " ");
                m.append(b.as_str());
                m
            },
            GeneratorError::UnsupportedError(a) => concat3(a.as_str(), " is not supported", ""),
            GeneratorError::UnsupportedPropertyError(a, b) => {
                let mut m = concat3("Unable to determine property name of ", a.as_str(), " ");
                m.append(b.as_str());
                m
            },
            GeneratorError::ParseError(a) => a.clone(),
            GeneratorError::ResolveError(a) => a.clone(),
            GeneratorError::ObjectDatabaseDuplicateError(a) => concat3(
                "ObjectDatabase already contains an object ",
                a.as_str(),
                "",
            ),
        }
    }
}

} // verus!
