//! Application errors: a stable code, a message for the user, and whether trying
//! again may help.
use vstd::prelude::*;
use crate::api::interactions_client::{api_error_message, ApiError};
use crate::textseq::{chars_to_string, dec, push_dec, push_str};

verus! {

/// An error as the user interface receives it.
#[derive(Debug)]
pub struct AppErrorResponse {
    pub code: &'static str,
    pub message: String,
    pub retryable: bool,
    pub diagnostic_id: Option<String>,
}

/// Errors of the application, each with its message.
#[derive(Debug)]
pub enum AppError {
    AuthInvalid(String),
    RateLimited(String),
    DailyQuotaExhausted(String),
    NetworkUnavailable(String),
    ValidationFailed(String),
    DatabaseError(String),
    AudioCorrupt(String),
    FileSystem(String),
    Queue(String),
    InternalError(String),
}

/// The stable code of each kind of error.
pub open spec fn app_error_code(e: AppError) -> Seq<char> {
    match e {
        AppError::AuthInvalid(_) => "AUTH_INVALID"@,
        AppError::RateLimited(_) => "RATE_LIMITED"@,
        AppError::DailyQuotaExhausted(_) => "DAILY_QUOTA_EXHAUSTED"@,
        AppError::NetworkUnavailable(_) => "NETWORK_UNAVAILABLE"@,
        AppError::ValidationFailed(_) => "VALIDATION_FAILED"@,
        AppError::DatabaseError(_) => "DATABASE_ERROR"@,
        AppError::AudioCorrupt(_) => "AUDIO_CORRUPT"@,
        AppError::FileSystem(_) => "FILE_SYSTEM_ERROR"@,
        AppError::Queue(_) => "QUEUE_ERROR"@,
        AppError::InternalError(_) => "INTERNAL_ERROR"@,
    }
}

/// The message the error carries.
pub open spec fn app_error_text(e: AppError) -> Seq<char> {
    match e {
        AppError::AuthInvalid(m) => m@,
        AppError::RateLimited(m) => m@,
        AppError::DailyQuotaExhausted(m) => m@,
        AppError::NetworkUnavailable(m) => m@,
        AppError::ValidationFailed(m) => m@,
        AppError::DatabaseError(m) => m@,
        AppError::AudioCorrupt(m) => m@,
        AppError::FileSystem(m) => m@,
        AppError::Queue(m) => m@,
        AppError::InternalError(m) => m@,
    }
}

/// Rate limits, network failures and queue errors may pass on a later try.
pub open spec fn app_error_retryable(e: AppError) -> bool {
    e is RateLimited || e is NetworkUnavailable || e is Queue
}

/// The message of a rate limit, with the wait in seconds (15 when the server gave none).
pub open spec fn rate_limit_message(secs: Option<u64>) -> Seq<char> {
    "Vượt quá tần suất yêu cầu API (429). Vui lòng thử lại sau "@ + match secs {
        Some(s) => dec(s as nat),
        None => "15"@,
    } + " giây."@
}

/// The application error for a failed speech call.
pub open spec fn from_api_error_spec(e: ApiError, r: AppError) -> bool {
    match e {
        ApiError::Unauthorized => r matches AppError::AuthInvalid(m) && m@
            == "API Key Gemini không hợp lệ hoặc thiếu quyền truy cập."@,
        ApiError::NetworkError(msg) => r matches AppError::NetworkUnavailable(m) && m@
            == "Lỗi kết nối mạng: "@ + msg@,
        ApiError::RateLimited(secs) => r matches AppError::RateLimited(m) && m@ == rate_limit_message(
            secs,
        ),
        ApiError::RateLimitedDaily => r matches AppError::DailyQuotaExhausted(m) && m@
            == "Đã chạm hạn ngạch API trong ngày (Daily Quota Exhausted)."@,
        _ => r matches AppError::InternalError(m) && m@ == api_error_message(e),
    }
}

impl AppError {
    pub fn code(&self) -> (r: &'static str)
        ensures
            r@ == app_error_code(*self),
    {
        match self {
            AppError::AuthInvalid(_) => "AUTH_INVALID",
            AppError::RateLimited(_) => "RATE_LIMITED",
            AppError::DailyQuotaExhausted(_) => "DAILY_QUOTA_EXHAUSTED",
            AppError::NetworkUnavailable(_) => "NETWORK_UNAVAILABLE",
            AppError::ValidationFailed(_) => "VALIDATION_FAILED",
            AppError::DatabaseError(_) => "DATABASE_ERROR",
            AppError::AudioCorrupt(_) => "AUDIO_CORRUPT",
            AppError::FileSystem(_) => "FILE_SYSTEM_ERROR",
            AppError::Queue(_) => "QUEUE_ERROR",
            AppError::InternalError(_) => "INTERNAL_ERROR",
        }
    }

    pub fn is_retryable(&self) -> (r: bool)
        ensures
            r == app_error_retryable(*self),
    {
        match self {
            AppError::RateLimited(_) | AppError::NetworkUnavailable(_) | AppError::Queue(_) => true,
            _ => false,
        }
    }

    pub fn message(&self) -> (r: String)
        ensures
            r@ == app_error_text(*self),
    {
        match self {
            AppError::AuthInvalid(m) => m.clone(),
            AppError::RateLimited(m) => m.clone(),
            AppError::DailyQuotaExhausted(m) => m.clone(),
            AppError::NetworkUnavailable(m) => m.clone(),
            AppError::ValidationFailed(m) => m.clone(),
            AppError::DatabaseError(m) => m.clone(),
            AppError::AudioCorrupt(m) => m.clone(),
            AppError::FileSystem(m) => m.clone(),
            AppError::Queue(m) => m.clone(),
            AppError::InternalError(m) => m.clone(),
        }
    }

    /// The error as the interface receives it, without a diagnostic id.
    pub fn to_response(&self) -> (r: AppErrorResponse)
        ensures
            r.code@ == app_error_code(*self),
            r.message@ == app_error_text(*self),
            r.retryable == app_error_retryable(*self),
            r.diagnostic_id is None,
    {
        AppErrorResponse {
            code: self.code(),
            message: self.message(),
            retryable: self.is_retryable(),
            diagnostic_id: None,
        }
    }

    /// An internal error with the given message.
    pub fn from_text(s: &str) -> (r: AppError)
        ensures
            r matches AppError::InternalError(m) && m@ == s@,
    {
        AppError::InternalError(s.to_owned())
    }

    /// The application error for a failed speech call.
    pub fn from_api_error(e: ApiError) -> (r: AppError)
        ensures
            from_api_error_spec(e, r),
    {
        match e {
            ApiError::Unauthorized => AppError::AuthInvalid(
                "API Key Gemini không hợp lệ hoặc thiếu quyền truy cập.".to_owned(),
            ),
            ApiError::NetworkError(msg) => {
                let mut v: Vec<char> = Vec::new();
                push_str(&mut v, "Lỗi kết nối mạng: ");
                push_str(&mut v, msg.as_str());
                AppError::NetworkUnavailable(chars_to_string(v.as_slice()))
            },
            ApiError::RateLimited(secs) => {
                let mut v: Vec<char> = Vec::new();
                push_str(&mut v, "Vượt quá tần suất yêu cầu API (429). Vui lòng thử lại sau ");
                match secs {
                    Some(s) => push_dec(&mut v, s),
                    None => push_str(&mut v, "15"),
                }
                push_str(&mut v, " giây.");
                assert(v@ =~= rate_limit_message(secs));
                AppError::RateLimited(chars_to_string(v.as_slice()))
            },
            ApiError::RateLimitedDaily => AppError::DailyQuotaExhausted(
                "Đã chạm hạn ngạch API trong ngày (Daily Quota Exhausted).".to_owned(),
            ),
            _ => AppError::InternalError(e.to_string()),
        }
    }
}

impl From<String> for AppError {
    fn from(s: String) -> (r: AppError) {
        AppError::InternalError(s)
    }
}

impl vstd::std_specs::convert::FromSpecImpl<String> for AppError {
    open spec fn obeys_from_spec() -> bool {
        true
    }

    open spec fn from_spec(v: String) -> AppError {
        AppError::InternalError(v)
    }
}

} // verus!
