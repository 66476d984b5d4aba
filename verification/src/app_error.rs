use vstd::prelude::*;

verus! {

/// The errors that the server functions answer with.
#[derive(Debug, PartialEq, Eq)]
pub enum AppError {
    /// Any other failure, with its message.
    Other(String),
    /// The database failed, with its message.
    Database(String),
    /// The password did not match the stored hash.
    WrongPassword,
    /// The server-function layer failed, with its status code and message.
    ServerFnError { status: u16, message: String },
    /// No authenticated user is logged in.
    Unauthorized,
    /// The user lacks the right for the request.
    Forbidden,
    /// The user owns as many textures as the user's groups allow.
    QuotaExceeded { limit: i64 },
}

/// The HTTP status code of each error.
pub open spec fn status_code_of(e: AppError) -> u16 {
    match e {
        AppError::Other(_) => 500,
        AppError::Database(_) => 500,
        AppError::WrongPassword => 401,
        AppError::ServerFnError { status, .. } => status,
        AppError::Unauthorized => 401,
        AppError::Forbidden => 403,
        AppError::QuotaExceeded { .. } => 403,
    }
}

impl AppError {
    /// The HTTP status code that answers this error.
    pub fn status_code(&self) -> (res: u16)
        ensures
            res == status_code_of(*self),
    {
        match self {
            AppError::Other(_) => 500,
            AppError::Database(_) => 500,
            AppError::WrongPassword => 401,
            AppError::ServerFnError { status, .. } => *status,
            AppError::Unauthorized => 401,
            AppError::Forbidden => 403,
            AppError::QuotaExceeded { .. } => 403,
        }
    }
}

} // verus!
