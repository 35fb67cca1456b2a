//! The error taxonomy: each kind with its HTTP status, its type name and
//! whether a client may retry.
use vstd::prelude::*;

verus! {

/// Every failure the gateway reports.
#[derive(Debug, Clone)]
pub enum Error {
    BadRequest(String),
    ModelNotFound(String),
    InvalidModel(String),
    ValidationFailed(String),
    RateLimitExceeded,
    ServiceUnavailable(String),
    ModelLoadFailed(String),
    RuntimeNotReady,
    Timeout(u64),
    Cancelled(String),
    UserCancelled,
    Internal(String),
    RuntimeError(String),
    ConfigError(String),
    Io(String),
    Serialization(String),
}

pub type Result<T> = core::result::Result<T, Error>;

impl Error {
    pub open spec fn status_spec(&self) -> u16 {
        match self {
            Error::BadRequest(_) | Error::ValidationFailed(_) | Error::InvalidModel(_) => 400,
            Error::ModelNotFound(_) => 404,
            Error::RateLimitExceeded => 429,
            Error::ServiceUnavailable(_) | Error::ModelLoadFailed(_) | Error::RuntimeNotReady => 503,
            Error::Timeout(_) => 408,
            Error::Cancelled(_) | Error::UserCancelled => 499,
            _ => 500,
        }
    }

    pub open spec fn type_spec(&self) -> Seq<char> {
        match self {
            Error::BadRequest(_) => "bad_request"@,
            Error::ValidationFailed(_) => "validation_failed"@,
            Error::ModelNotFound(_) => "model_not_found"@,
            Error::InvalidModel(_) => "invalid_model"@,
            Error::RateLimitExceeded => "rate_limit"@,
            Error::ServiceUnavailable(_) => "service_unavailable"@,
            Error::ModelLoadFailed(_) => "model_load_failed"@,
            Error::RuntimeNotReady => "runtime_not_ready"@,
            Error::Timeout(_) => "timeout"@,
            Error::Cancelled(_) => "cancelled"@,
            Error::UserCancelled => "user_cancelled"@,
            Error::Internal(_) => "internal"@,
            Error::RuntimeError(_) => "runtime_error"@,
            Error::ConfigError(_) => "config_error"@,
            Error::Io(_) => "io_error"@,
            Error::Serialization(_) => "serialization_error"@,
        }
    }

    pub open spec fn retryable_spec(&self) -> bool {
        match self {
            Error::Timeout(_) | Error::RateLimitExceeded | Error::ServiceUnavailable(_)
            | Error::ModelLoadFailed(_) | Error::RuntimeNotReady => true,
            _ => false,
        }
    }

    /// The human-readable text of the error.
    pub open spec fn message_spec(&self) -> Seq<char> {
        match self {
            Error::BadRequest(m) => "Bad request: "@ + m@,
            Error::ModelNotFound(m) => "Model not found: "@ + m@,
            Error::InvalidModel(m) => "Invalid model: "@ + m@,
            Error::ValidationFailed(m) => "Request validation failed: "@ + m@,
            Error::RateLimitExceeded => "Rate limit exceeded"@,
            Error::ServiceUnavailable(m) => "Service unavailable: "@ + m@,
            Error::ModelLoadFailed(m) => "Model loading failed: "@ + m@,
            Error::RuntimeNotReady => "Runtime not ready"@,
            Error::Timeout(s) => "Request timeout after "@ + decimal(*s as nat) + " seconds"@,
            Error::Cancelled(m) => "Request cancelled: "@ + m@,
            Error::UserCancelled => "Generation cancelled by user"@,
            Error::Internal(m) => "Internal error: "@ + m@,
            Error::RuntimeError(m) => "Runtime error: "@ + m@,
            Error::ConfigError(m) => "Configuration error: "@ + m@,
            Error::Io(m) => "IO error: "@ + m@,
            Error::Serialization(m) => "Serialization error: "@ + m@,
        }
    }

    /// The HTTP status that reports this error.
    pub fn status_code(&self) -> (r: u16)
        ensures
            r == self.status_spec(),
    {
        match self {
            Error::BadRequest(_) => 400,
            Error::ValidationFailed(_) => 400,
            Error::ModelNotFound(_) => 404,
            Error::InvalidModel(_) => 400,
            Error::RateLimitExceeded => 429,
            Error::ServiceUnavailable(_) => 503,
            Error::ModelLoadFailed(_) => 503,
            Error::RuntimeNotReady => 503,
            Error::Timeout(_) => 408,
            Error::Cancelled(_) => 499,
            Error::UserCancelled => 499,
            Error::Internal(_) => 500,
            Error::RuntimeError(_) => 500,
            Error::ConfigError(_) => 500,
            Error::Io(_) => 500,
            Error::Serialization(_) => 500,
        }
    }

    /// The error's type name, as metrics and logs record it.
    pub fn error_type(&self) -> (r: &'static str)
        ensures
            r@ == self.type_spec(),
    {
        match self {
            Error::BadRequest(_) => "bad_request",
            Error::ValidationFailed(_) => "validation_failed",
            Error::ModelNotFound(_) => "model_not_found",
            Error::InvalidModel(_) => "invalid_model",
            Error::RateLimitExceeded => "rate_limit",
            Error::ServiceUnavailable(_) => "service_unavailable",
            Error::ModelLoadFailed(_) => "model_load_failed",
            Error::RuntimeNotReady => "runtime_not_ready",
            Error::Timeout(_) => "timeout",
            Error::Cancelled(_) => "cancelled",
            Error::UserCancelled => "user_cancelled",
            Error::Internal(_) => "internal",
            Error::RuntimeError(_) => "runtime_error",
            Error::ConfigError(_) => "config_error",
            Error::Io(_) => "io_error",
            Error::Serialization(_) => "serialization_error",
        }
    }

    /// Whether the client may try the request again.
    pub fn is_retryable(&self) -> (r: bool)
        ensures
            r == self.retryable_spec(),
    {
        match self {
            Error::Timeout(_) => true,
            Error::RateLimitExceeded => true,
            Error::ServiceUnavailable(_) => true,
            Error::ModelLoadFailed(_) => true,
            Error::RuntimeNotReady => true,
            _ => false,
        }
    }

    /// The human-readable text of the error.
    pub fn to_string(&self) -> (r: String)
        ensures
            r@ == self.message_spec(),
    {
        match self {
            Error::BadRequest(m) => String::from_str("Bad request: ").concat(m.as_str()),
            Error::ModelNotFound(m) => String::from_str("Model not found: ").concat(m.as_str()),
            Error::InvalidModel(m) => String::from_str("Invalid model: ").concat(m.as_str()),
            Error::ValidationFailed(m) => String::from_str("Request validation failed: ").concat(
                m.as_str(),
            ),
            Error::RateLimitExceeded => String::from_str("Rate limit exceeded"),
            Error::ServiceUnavailable(m) => String::from_str("Service unavailable: ").concat(
                m.as_str(),
            ),
            Error::ModelLoadFailed(m) => String::from_str("Model loading failed: ").concat(
                m.as_str(),
            ),
            Error::RuntimeNotReady => String::from_str("Runtime not ready"),
            Error::Timeout(s) => {
                let n = decimal_string(*s);
                String::from_str("Request timeout after ").concat(n.as_str()).concat(" seconds")
            },
            Error::Cancelled(m) => String::from_str("Request cancelled: ").concat(m.as_str()),
            Error::UserCancelled => String::from_str("Generation cancelled by user"),
            Error::Internal(m) => String::from_str("Internal error: ").concat(m.as_str()),
            Error::RuntimeError(m) => String::from_str("Runtime error: ").concat(m.as_str()),
            Error::ConfigError(m) => String::from_str("Configuration error: ").concat(m.as_str()),
            Error::Io(m) => String::from_str("IO error: ").concat(m.as_str()),
            Error::Serialization(m) => String::from_str("Serialization error: ").concat(
                m.as_str(),
            ),
        }
    }
}

pub open spec fn digit_char(d: nat) -> char {
    if d == 0 {
        '0'
    } else if d == 1 {
        '1'
    } else if d == 2 {
        '2'
    } else if d == 3 {
        '3'
    } else if d == 4 {
        '4'
    } else if d == 5 {
        '5'
    } else if d == 6 {
        '6'
    } else if d == 7 {
        '7'
    } else if d == 8 {
        '8'
    } else {
        '9'
    }
}

/// The decimal digits of `n`, without leading zeros.
pub open spec fn decimal(n: nat) -> Seq<char>
    decreases n,
{
    if n < 10 {
        seq![digit_char(n)]
    } else {
        decimal(n / 10) + seq![digit_char(n % 10)]
    }
}

fn digit_of(d: u64) -> (c: char)
    requires
        d < 10,
    ensures
        c == digit_char(d as nat),
{
    if d == 0 {
        '0'
    } else if d == 1 {
        '1'
    } else if d == 2 {
        '2'
    } else if d == 3 {
        '3'
    } else if d == 4 {
        '4'
    } else if d == 5 {
        '5'
    } else if d == 6 {
        '6'
    } else if d == 7 {
        '7'
    } else if d == 8 {
        '8'
    } else {
        '9'
    }
}

/// The decimal digits of `n`.
pub fn decimal_string(n: u64) -> (r: String)
    ensures
        r@ == decimal(n as nat),
{
    let mut tail: Vec<char> = Vec::new();
    let mut m: u64 = n;
    while m >= 10
        invariant
            decimal(n as nat) == decimal(m as nat) + tail@,
        decreases m,
    {
        let c = digit_of(m % 10);
        let ghost before = tail@;
        tail.insert(0, c);
        assert(tail@ =~= seq![c] + before);
        assert(decimal(m as nat) == decimal((m / 10) as nat) + seq![digit_char((m % 10) as nat)]);
        assert(decimal((m / 10) as nat) + tail@ =~= decimal((m / 10) as nat) + seq![c] + before);
        m = m / 10;
    }
    let mut digits: Vec<char> = Vec::new();
    digits.push(digit_of(m));
    crate::text::append_seq(&mut digits, &tail);
    assert(digits@ =~= decimal(m as nat) + tail@);
    crate::text::string_of(&digits)
}

/// The JSON body of an error response.
#[derive(Debug, Clone)]
pub struct ErrorResponse {
    pub error: ErrorDetail,
    pub request_id: Option<String>,
}

/// What an error response says of the error.
#[derive(Debug, Clone)]
pub struct ErrorDetail {
    pub message: String,
    pub error_type: String,
    pub code: u16,
}

impl ErrorResponse {
    /// The response body for `err`, without a request id.
    pub fn from_error(err: &Error) -> (r: ErrorResponse)
        ensures
            r.error.message@ == err.message_spec(),
            r.error.error_type@ == err.type_spec(),
            r.error.code == err.status_spec(),
            r.request_id is None,
    {
        ErrorResponse {
            error: ErrorDetail {
                message: err.to_string(),
                error_type: String::from_str(err.error_type()),
                code: err.status_code(),
            },
            request_id: None,
        }
    }
}

} // verus!
