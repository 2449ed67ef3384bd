//! What can go wrong between the client and the forum.

use vstd::prelude::*;
use vstd::string::StringExecFns;

verus! {

/// What is told before the reason of a failure to read or write.
pub const IO_PREFIX: &'static str = "IO错误: ";

/// What is told before the reason of a refusal by the forum.
pub const API_PREFIX: &'static str = "API错误: ";

/// What is told before the reason of a failure to reach the forum.
pub const REQUEST_PREFIX: &'static str = "HTTP请求错误: ";

/// What is told before the reason of a failure to read an answer.
pub const PARSE_PREFIX: &'static str = "解析错误: ";

/// What is told before the reason of a failure of the settings.
pub const CONFIG_PREFIX: &'static str = "配置错误: ";

/// What is told when the forum was asked without a key.
pub const UNAUTHORIZED_TEXT: &'static str = "未经授权";

/// A failure of the client, with its reason.
#[derive(Debug, PartialEq)]
pub enum LdUiError {
    /// Reading or writing failed.
    Io(String),
    /// The forum refused the request.
    Api(String),
    /// The forum could not be reached.
    Request(String),
    /// The answer of the forum could not be read.
    Parse(String),
    /// The settings could not be read or written.
    Config(String),
    /// The request needs a key and there is none.
    Unauthorized,
}

impl LdUiError {
    /// The text that tells of the failure.
    pub open spec fn text(&self) -> Seq<char> {
        match self {
            LdUiError::Io(reason) => IO_PREFIX@ + reason@,
            LdUiError::Api(reason) => API_PREFIX@ + reason@,
            LdUiError::Request(reason) => REQUEST_PREFIX@ + reason@,
            LdUiError::Parse(reason) => PARSE_PREFIX@ + reason@,
            LdUiError::Config(reason) => CONFIG_PREFIX@ + reason@,
            LdUiError::Unauthorized => UNAUTHORIZED_TEXT@,
        }
    }

    /// Tells of the failure in words.
    pub fn message(&self) -> (message: String)
        ensures
            message@ == self.text(),
    {
        match self {
            LdUiError::Io(reason) => prefixed(IO_PREFIX, reason),
            LdUiError::Api(reason) => prefixed(API_PREFIX, reason),
            LdUiError::Request(reason) => prefixed(REQUEST_PREFIX, reason),
            LdUiError::Parse(reason) => prefixed(PARSE_PREFIX, reason),
            LdUiError::Config(reason) => prefixed(CONFIG_PREFIX, reason),
            LdUiError::Unauthorized => String::from_str(UNAUTHORIZED_TEXT),
        }
    }
}

/// A reason with what is told before it.
pub fn prefixed(prefix: &str, reason: &String) -> (message: String)
    ensures
        message@ == prefix@ + reason@,
{
    let mut message = String::from_str(prefix);
    message.append(reason.as_str());
    message
}

} // verus!
