use vstd::prelude::*;

verus! {

/// Failure kinds of every registry and authorization operation.
#[derive(Clone, Copy, Debug, PartialEq, Eq, Structural)]
pub enum ModelError {
    /// A referenced user, role, task, grant or attachment does not exist.
    NotFound,
    /// A field breaks a constraint (name too short, file presence vs. type).
    Validation,
    /// The actor lacks the required grant or role.
    Unauthorized,
    /// A unique value (an e-mail, a pid) is taken, or a row is still referenced.
    Conflict,
    /// The actor is known but not allowed yet (e-mail not verified).
    Forbidden,
    /// The store cannot take another row of some table.
    Internal,
}

impl ModelError {
    /// HTTP status that the transport layer answers with.
    pub fn status_code(&self) -> (r: u16)
        ensures
            *self == ModelError::NotFound ==> r == 404,
            *self == ModelError::Validation ==> r == 400,
            *self == ModelError::Unauthorized ==> r == 401,
            *self == ModelError::Conflict ==> r == 409,
            *self == ModelError::Forbidden ==> r == 403,
            *self == ModelError::Internal ==> r == 500,
    {
        match self {
            ModelError::NotFound => 404,
            ModelError::Validation => 400,
            ModelError::Unauthorized => 401,
            ModelError::Conflict => 409,
            ModelError::Forbidden => 403,
            ModelError::Internal => 500,
        }
    }
}

} // verus!
