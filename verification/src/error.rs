//! The failures that the control plane reports.

use vstd::prelude::*;
use vstd::string::*;
use crate::text::{decimal, decimal_text};

verus! {

/// Why a schema or a query was refused by its compiler.
#[derive(Clone, Debug, PartialEq, Eq)]
pub enum CompileError {
    /// The character at this position belongs to no token.
    InvalidCharacter(usize),
    /// The token at this index cannot stand where it does; the index is the
    /// number of tokens when the text ends too early.
    Syntax(usize),
    /// A schema declares this type twice.
    DuplicateType(String),
    /// A schema declares, in this type, this field twice.
    DuplicateField(String, String),
    /// A query selects this type, which the schema does not declare.
    UnknownType(String),
    /// A query selects, from this type, this field, which the type lacks.
    UnknownField(String, String),
    /// A query selects inside this field of this type, which holds no object.
    NotAnObject(String, String),
    /// A query names this type and does not say which of its fields it wants.
    MissingSelection(String),
}

/// The mathematical value of a [`CompileError`].
pub ghost enum CompileFault {
    InvalidCharacter(nat),
    Syntax(nat),
    DuplicateType(Seq<char>),
    DuplicateField(Seq<char>, Seq<char>),
    UnknownType(Seq<char>),
    UnknownField(Seq<char>, Seq<char>),
    NotAnObject(Seq<char>, Seq<char>),
    MissingSelection(Seq<char>),
}

impl View for CompileError {
    type V = CompileFault;

    open spec fn view(&self) -> CompileFault {
        match *self {
            CompileError::InvalidCharacter(at) => CompileFault::InvalidCharacter(at as nat),
            CompileError::Syntax(at) => CompileFault::Syntax(at as nat),
            CompileError::DuplicateType(name) => CompileFault::DuplicateType(name@),
            CompileError::DuplicateField(owner, name) => CompileFault::DuplicateField(
                owner@,
                name@,
            ),
            CompileError::UnknownType(name) => CompileFault::UnknownType(name@),
            CompileError::UnknownField(owner, name) => CompileFault::UnknownField(owner@, name@),
            CompileError::NotAnObject(owner, name) => CompileFault::NotAnObject(owner@, name@),
            CompileError::MissingSelection(name) => CompileFault::MissingSelection(name@),
        }
    }
}

impl CompileFault {
    /// What a caller is told of the failure: a sentence that names the place
    /// or the names at fault.
    pub open spec fn message(self) -> Seq<char> {
        match self {
            CompileFault::InvalidCharacter(at) => "Invalid character at position "@ + decimal_text(
                at,
            ) + "."@,
            CompileFault::Syntax(at) => "Unexpected token at index "@ + decimal_text(at) + "."@,
            CompileFault::DuplicateType(name) => "Type '"@ + name + "' is declared twice."@,
            CompileFault::DuplicateField(owner, name) => "Field '"@ + name + "' of type '"@ + owner
                + "' is declared twice."@,
            CompileFault::UnknownType(name) => "Unknown type '"@ + name + "'."@,
            CompileFault::UnknownField(owner, name) => "Unknown field '"@ + name + "' of type '"@
                + owner + "'."@,
            CompileFault::NotAnObject(owner, name) => "Field '"@ + name + "' of type '"@ + owner
                + "' holds no object."@,
            CompileFault::MissingSelection(name) => "Type '"@ + name + "' needs a selection."@,
        }
    }
}

impl CompileError {
    /// What a caller is told of the failure.
    pub fn message(&self) -> (text: String)
        ensures
            text@ == self@.message(),
    {
        match self {
            CompileError::InvalidCharacter(at) => {
                let mut text = String::from_str("Invalid character at position ");
                text.append(decimal(*at).as_str());
                text.append(".");
                text
            },
            CompileError::Syntax(at) => {
                let mut text = String::from_str("Unexpected token at index ");
                text.append(decimal(*at).as_str());
                text.append(".");
                text
            },
            CompileError::DuplicateType(name) => {
                let mut text = String::from_str("Type '");
                text.append(name.as_str());
                text.append("' is declared twice.");
                text
            },
            CompileError::DuplicateField(owner, name) => {
                let mut text = String::from_str("Field '");
                text.append(name.as_str());
                text.append("' of type '");
                text.append(owner.as_str());
                text.append("' is declared twice.");
                text
            },
            CompileError::UnknownType(name) => {
                let mut text = String::from_str("Unknown type '");
                text.append(name.as_str());
                text.append("'.");
                text
            },
            CompileError::UnknownField(owner, name) => {
                let mut text = String::from_str("Unknown field '");
                text.append(name.as_str());
                text.append("' of type '");
                text.append(owner.as_str());
                text.append("'.");
                text
            },
            CompileError::NotAnObject(owner, name) => {
                let mut text = String::from_str("Field '");
                text.append(name.as_str());
                text.append("' of type '");
                text.append(owner.as_str());
                text.append("' holds no object.");
                text
            },
            CompileError::MissingSelection(name) => {
                let mut text = String::from_str("Type '");
                text.append(name.as_str());
                text.append("' needs a selection.");
                text
            },
        }
    }
}

/// A failure of one request to the control plane.
#[derive(Clone, Debug, PartialEq, Eq)]
pub enum ApiError {
    /// No index, or no schema, is known under this name.
    NotFound(String),
    /// An upload part carries this name, which names no asset type.
    InvalidAssetType(String),
    /// A schema or a query did not compile.
    Compile(CompileError),
    /// The store refused to read or write.
    Persistence,
    /// The operation needs the execution pool, and none is attached.
    Unavailable,
    /// The registry was changed, but the control channel was full and the
    /// execution pool was not told.
    Undelivered,
    /// The request has no body to work on.
    BadRequest,
    /// A compiled statement failed when it was run; the text says how.
    Execution(String),
}

/// The mathematical value of an [`ApiError`].
pub ghost enum ApiFault {
    NotFound(Seq<char>),
    InvalidAssetType(Seq<char>),
    Compile(CompileFault),
    Persistence,
    Unavailable,
    Undelivered,
    BadRequest,
    Execution(Seq<char>),
}

impl View for ApiError {
    type V = ApiFault;

    open spec fn view(&self) -> ApiFault {
        match *self {
            ApiError::NotFound(name) => ApiFault::NotFound(name@),
            ApiError::InvalidAssetType(name) => ApiFault::InvalidAssetType(name@),
            ApiError::Compile(e) => ApiFault::Compile(e@),
            ApiError::Persistence => ApiFault::Persistence,
            ApiError::Unavailable => ApiFault::Unavailable,
            ApiError::Undelivered => ApiFault::Undelivered,
            ApiError::BadRequest => ApiFault::BadRequest,
            ApiError::Execution(message) => ApiFault::Execution(message@),
        }
    }
}

/// What a request asked the service to do.
#[derive(Clone, Copy, Debug, PartialEq, Eq, Structural)]
pub enum Operation {
    /// Answer a query.
    Query,
    /// Register the assets of an index.
    Upload,
    /// Stop an index.
    Stop,
}

impl ApiFault {
    /// The HTTP status that answers a request which failed. An upload or a
    /// stop that failed is the service's failure, whatever the reason. A
    /// query fails as the caller's where its graph is unknown (404) or it does
    /// not compile (400), and as the service's otherwise.
    pub open spec fn status(self, operation: Operation) -> u16 {
        match operation {
            Operation::Query => match self {
                ApiFault::NotFound(_) => 404,
                ApiFault::Compile(_) => 400,
                _ => 500,
            },
            Operation::Upload => 500,
            Operation::Stop => 500,
        }
    }

    /// What a caller is told of the failure.
    pub open spec fn message(self) -> Seq<char> {
        match self {
            ApiFault::NotFound(name) => name,
            ApiFault::InvalidAssetType(name) => "Invalid asset type '"@ + name + "'."@,
            ApiFault::Compile(fault) => fault.message(),
            ApiFault::Persistence => "The store refused the request."@,
            ApiFault::Unavailable => "No execution pool is attached."@,
            ApiFault::Undelivered => "The execution pool could not be told."@,
            ApiFault::BadRequest => "The request has no body."@,
            ApiFault::Execution(complaint) => complaint,
        }
    }
}

impl ApiError {
    /// The HTTP status that answers a request which failed with this error.
    pub fn status(&self, operation: Operation) -> (status: u16)
        ensures
            status == self@.status(operation),
    {
        match operation {
            Operation::Query => match self {
                ApiError::NotFound(_) => 404,
                ApiError::Compile(_) => 400,
                _ => 500,
            },
            Operation::Upload => 500,
            Operation::Stop => 500,
        }
    }

    /// What a caller is told of the failure.
    pub fn message(&self) -> (text: String)
        ensures
            text@ == self@.message(),
    {
        match self {
            ApiError::NotFound(name) => name.clone(),
            ApiError::InvalidAssetType(name) => {
                let mut text = String::from_str("Invalid asset type '");
                text.append(name.as_str());
                text.append("'.");
                text
            },
            ApiError::Compile(e) => e.message(),
            ApiError::Persistence => String::from_str("The store refused the request."),
            ApiError::Unavailable => String::from_str("No execution pool is attached."),
            ApiError::Undelivered => String::from_str("The execution pool could not be told."),
            ApiError::BadRequest => String::from_str("The request has no body."),
            ApiError::Execution(complaint) => complaint.clone(),
        }
    }
}

} // verus!
