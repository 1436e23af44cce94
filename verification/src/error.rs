//! The failures that the controller and the metering loop report.

use vstd::prelude::*;

verus! {

/// A failure, by kind, with the message of what went wrong.
#[derive(Debug, Clone, PartialEq, Eq)]
pub enum Error {
    /// A connection, query or transaction failed.
    PgError(String),
    /// The control plane refused or failed a watch or a patch.
    KubeError(String),
    /// The deletion guard could not be worked through.
    FinalizerError(String),
    /// The counter registry refused a metric.
    PrometheusError(String),
    /// The user name could not be hashed.
    Sha256Error(String),
    /// The user name could not be encoded.
    Bech32Error(String),
    /// A network or a rate is not configured, or a setting is malformed.
    ConfigError(String),
    /// The metering data source could not be reached or refused the query.
    HttpError(String),
}

/// What `str::to_lowercase` returns for a text.
pub uninterp spec fn lowercase_text(s: Seq<char>) -> Seq<char>;

/// What the `Debug` format of a `str` writes for a text: the text in
/// double quotes, with its special characters escaped.
pub uninterp spec fn quoted_text(s: Seq<char>) -> Seq<char>;

/// The lowercase form of a text, by `str::to_lowercase`: the contract
/// only names the result.
#[verifier::external_body]
fn lowercase(s: &str) -> (r: String)
    ensures
        r@ == lowercase_text(s@),
{
    s.to_lowercase()
}

/// The `Debug` format of a text, by `format!` with `{:?}` on a `str`: the
/// contract only names the result.
#[verifier::external_body]
fn quoted(s: &str) -> (r: String)
    ensures
        r@ == quoted_text(s@),
{
    format!("{:?}", s)
}

/// The name of a kind followed by the quoted message in parentheses.
pub open spec fn framed_text(kind: Seq<char>, quoted_message: Seq<char>) -> Seq<char> {
    kind + "("@ + quoted_message + ")"@
}

/// Writes the name of a kind followed by the quoted message in
/// parentheses.
pub fn framed(kind: &str, quoted_message: &str) -> (r: String)
    ensures
        r@ == framed_text(kind@, quoted_message@),
{
    let mut r = String::from_str(kind);
    r.append("(");
    r.append(quoted_message);
    r.append(")");
    r
}

impl Error {
    /// The name of the kind of this failure.
    pub open spec fn kind_text(&self) -> Seq<char> {
        match self {
            Error::PgError(_) => "PgError"@,
            Error::KubeError(_) => "KubeError"@,
            Error::FinalizerError(_) => "FinalizerError"@,
            Error::PrometheusError(_) => "PrometheusError"@,
            Error::Sha256Error(_) => "Sha256Error"@,
            Error::Bech32Error(_) => "Bech32Error"@,
            Error::ConfigError(_) => "ConfigError"@,
            Error::HttpError(_) => "HttpError"@,
        }
    }

    /// The words that introduce the message of each kind.
    pub open spec fn heading_text(&self) -> Seq<char> {
        match self {
            Error::PgError(_) => "Postgres Error: "@,
            Error::KubeError(_) => "Kube Error: "@,
            Error::FinalizerError(_) => "Finalizer Error: "@,
            Error::PrometheusError(_) => "Prometheus Error: "@,
            Error::Sha256Error(_) => "Sha256 Error: "@,
            Error::Bech32Error(_) => "Bech32 Error: "@,
            Error::ConfigError(_) => "Config Error: "@,
            Error::HttpError(_) => "Http Request error: "@,
        }
    }

    /// The message that this failure carries.
    pub open spec fn message_text(&self) -> Seq<char> {
        match self {
            Error::PgError(m) => m@,
            Error::KubeError(m) => m@,
            Error::FinalizerError(m) => m@,
            Error::PrometheusError(m) => m@,
            Error::Sha256Error(m) => m@,
            Error::Bech32Error(m) => m@,
            Error::ConfigError(m) => m@,
            Error::HttpError(m) => m@,
        }
    }

    /// The name of the kind of this failure.
    pub fn kind(&self) -> (r: &'static str)
        ensures
            r@ == self.kind_text(),
    {
        match self {
            Error::PgError(_) => "PgError",
            Error::KubeError(_) => "KubeError",
            Error::FinalizerError(_) => "FinalizerError",
            Error::PrometheusError(_) => "PrometheusError",
            Error::Sha256Error(_) => "Sha256Error",
            Error::Bech32Error(_) => "Bech32Error",
            Error::ConfigError(_) => "ConfigError",
            Error::HttpError(_) => "HttpError",
        }
    }

    /// The message that this failure carries.
    pub fn message(&self) -> (r: &str)
        ensures
            r@ == self.message_text(),
    {
        match self {
            Error::PgError(m) => m.as_str(),
            Error::KubeError(m) => m.as_str(),
            Error::FinalizerError(m) => m.as_str(),
            Error::PrometheusError(m) => m.as_str(),
            Error::Sha256Error(m) => m.as_str(),
            Error::Bech32Error(m) => m.as_str(),
            Error::ConfigError(m) => m.as_str(),
            Error::HttpError(m) => m.as_str(),
        }
    }

    /// The failure as one line for a log: the heading of its kind, then
    /// its message.
    pub fn to_string(&self) -> (r: String)
        ensures
            r@ == self.heading_text() + self.message_text(),
    {
        let heading = match self {
            Error::PgError(_) => "Postgres Error: ",
            Error::KubeError(_) => "Kube Error: ",
            Error::FinalizerError(_) => "Finalizer Error: ",
            Error::PrometheusError(_) => "Prometheus Error: ",
            Error::Sha256Error(_) => "Sha256 Error: ",
            Error::Bech32Error(_) => "Bech32 Error: ",
            Error::ConfigError(_) => "Config Error: ",
            Error::HttpError(_) => "Http Request error: ",
        };
        let mut r = String::from_str(heading);
        r.append(self.message());
        r
    }

    /// The label under which this failure is counted: the name of its
    /// kind and its quoted message in parentheses, in lowercase.
    pub fn metric_label(&self) -> (r: String)
        ensures
            r@ == lowercase_text(framed_text(self.kind_text(), quoted_text(self.message_text()))),
    {
        let q = quoted(self.message());
        let f = framed(self.kind(), q.as_str());
        lowercase(f.as_str())
    }
}

} // verus!
