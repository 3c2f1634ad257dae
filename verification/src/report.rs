//! Structured error reporting.
//!
//! An error report carries a titled context with an optional code and help
//! text, the messages attached along the way, and the build facts stamped
//! into the binary.  Its machine-readable form flattens the history into
//! plain messages and adds a fresh correlation identifier; its documentation
//! link points the code into the error reference.

use vstd::prelude::*;
use vstd::string::*;

verus! {

/// One step of an error's history.
pub struct ErrorFrame {
    pub message: String,
}

/// The machine-readable form of an error report.
pub struct ApiError {
    pub git_hash: String,
    pub docs_url: String,
    pub correlation_id: String,
    pub title: String,
    pub code: Option<String>,
    pub help: Option<String>,
    pub history: Vec<ErrorFrame>,
}

/// An error report as plain data: the current context's title, code and
/// help, the attached messages in order, and the build facts.
pub struct LibReport {
    pub title: String,
    pub code: Option<String>,
    pub help: Option<String>,
    pub attachments: Vec<String>,
    pub git_hash: String,
    pub docs_url: String,
}

/// A sink that renders a report in its machine-readable form.
pub trait ReportExt {
    /// The report's title.
    spec fn report_title(&self) -> String;

    /// The report's diagnostic code.
    spec fn report_code(&self) -> Option<String>;

    /// The report's help text.
    spec fn report_help(&self) -> Option<String>;

    /// The messages attached to the report, in order.
    spec fn report_attachments(&self) -> Seq<String>;

    /// The build hash stamped into the report.
    spec fn report_git_hash(&self) -> String;

    /// The documentation base stamped into the report.
    spec fn report_docs_url(&self) -> String;

    /// Renders this report in its machine-readable form: the same title,
    /// code, help and build facts, one history frame per attached message in
    /// order, and a fresh eight-character correlation identifier.
    fn to_api_error(&self) -> (r: ApiError)
        ensures
            r.title == self.report_title(),
            r.code == self.report_code(),
            r.help == self.report_help(),
            r.git_hash == self.report_git_hash(),
            r.docs_url == self.report_docs_url(),
            r.correlation_id@.len() == 8,
            r.history@.len() == self.report_attachments().len(),
            forall|i: int|
                0 <= i < self.report_attachments().len() ==> (#[trigger] r.history@[i]).message
                    == self.report_attachments()[i],
    ;
}

/// Relies on nanoid's format, with its default alphabet and random source: a
/// fresh identifier of exactly the requested length.  Nothing more is
/// claimed: the identifier is random.
#[verifier::external_body]
fn correlation_id() -> (r: String)
    ensures
        r@.len() == 8,
{
    nanoid::format(nanoid::rngs::default, &nanoid::alphabet::SAFE, 8)
}

/// The documentation link of a code: the docs base, a fragment mark and the
/// code.
pub open spec fn spec_doc_link(base: Seq<char>, code: Seq<char>) -> Seq<char> {
    base + "/#"@ + code
}

/// The history of a report flattened to its messages, in order.
pub fn history_messages(history: &Vec<ErrorFrame>) -> (r: Vec<String>)
    ensures
        r@.len() == history@.len(),
        forall|i: int| 0 <= i < history@.len() ==> r@[i] == (#[trigger] history@[i]).message,
{
    let mut out: Vec<String> = Vec::new();
    let mut i: usize = 0;
    while i < history.len()
        invariant
            0 <= i <= history@.len(),
            out@.len() == i,
            forall|j: int| 0 <= j < i ==> out@[j] == (#[trigger] history@[j]).message,
        decreases history@.len() - i,
    {
        out.push(history[i].message.clone());
        i = i + 1;
    }
    out
}

impl LibReport {
    /// The documentation link of this report, owed exactly when it carries a
    /// code.
    pub fn url(&self) -> (r: Option<String>)
        ensures
            r is Some <==> self.code is Some,
            r matches Some(u) ==> u@ == spec_doc_link(self.docs_url@, self.code->0@),
    {
        match &self.code {
            Some(code) => {
                let mut link = self.docs_url.clone();
                link.append("/#");
                link.append(code.as_str());
                proof {
                    assert(link@ =~= spec_doc_link(self.docs_url@, self.code->0@));
                }
                Some(link)
            },
            None => None,
        }
    }

    /// The machine-readable form of this report: the same title, code, help
    /// and build facts, one history frame per attached message in order, and
    /// a fresh eight-character correlation identifier.
    pub fn api_error(&self) -> (r: ApiError)
        ensures
            r.title == self.title,
            r.code == self.code,
            r.help == self.help,
            r.git_hash == self.git_hash,
            r.docs_url == self.docs_url,
            r.correlation_id@.len() == 8,
            r.history@.len() == self.attachments@.len(),
            forall|i: int|
                0 <= i < self.attachments@.len() ==> (#[trigger] r.history@[i]).message
                    == self.attachments@[i],
    {
        let mut history: Vec<ErrorFrame> = Vec::new();
        let mut i: usize = 0;
        while i < self.attachments.len()
            invariant
                0 <= i <= self.attachments@.len(),
                history@.len() == i,
                forall|j: int|
                    0 <= j < i ==> (#[trigger] history@[j]).message == self.attachments@[j],
            decreases self.attachments@.len() - i,
        {
            history.push(ErrorFrame { message: self.attachments[i].clone() });
            i = i + 1;
        }
        let code: Option<String> = match &self.code {
            Some(c) => Some(c.clone()),
            None => None,
        };
        let help: Option<String> = match &self.help {
            Some(h) => Some(h.clone()),
            None => None,
        };
        ApiError {
            git_hash: self.git_hash.clone(),
            docs_url: self.docs_url.clone(),
            correlation_id: correlation_id(),
            title: self.title.clone(),
            code,
            help,
            history,
        }
    }
}

impl ReportExt for LibReport {
    open spec fn report_title(&self) -> String {
        self.title
    }

    open spec fn report_code(&self) -> Option<String> {
        self.code
    }

    open spec fn report_help(&self) -> Option<String> {
        self.help
    }

    open spec fn report_attachments(&self) -> Seq<String> {
        self.attachments@
    }

    open spec fn report_git_hash(&self) -> String {
        self.git_hash
    }

    open spec fn report_docs_url(&self) -> String {
        self.docs_url
    }

    fn to_api_error(&self) -> (r: ApiError) {
        self.api_error()
    }
}

/// A structured error: a configuration file that would not parse, with the
/// offending source span, or a timed-out network operation.
pub enum LibError {
    ConfigParseError {
        /// The path to the file.
        path: String,
        /// The name the offending source was read from.
        source_name: String,
        /// The offending source text, for snippet rendering.
        source_text: String,
        /// Where the syntax error starts in that text.
        span_offset: usize,
        /// How far it reaches.
        span_len: usize,
    },
    NetworkError {
        /// Timeout duration in seconds.
        timeout: u64,
    },
}

/// The diagnostic code every structured error carries.
pub open spec fn spec_error_code() -> Seq<char> {
    "config::invalid_format"@
}

/// The display message of an error.
pub open spec fn spec_error_message(e: LibError) -> Seq<char> {
    match e {
        LibError::ConfigParseError { path, .. } => "Failed to parse config at "@ + path@,
        LibError::NetworkError { timeout } => "Network timeout after "@ + crate::text::dec_chars(
            timeout as int,
        ) + "s"@,
    }
}

impl LibError {
    /// The diagnostic code of this error.
    pub fn code(&self) -> (r: String)
        ensures
            r@ == spec_error_code(),
    {
        "config::invalid_format".to_owned()
    }

    /// The help text of this error.
    pub fn help(&self) -> (r: String)
        ensures
            r@ == "Ensure the configuration file is valid JSON."@,
    {
        "Ensure the configuration file is valid JSON.".to_owned()
    }

    /// The display message of this error.
    pub fn message(&self) -> (r: String)
        ensures
            r@ == spec_error_message(*self),
    {
        match self {
            LibError::ConfigParseError { path, .. } => {
                let mut m = "Failed to parse config at ".to_owned();
                m.append(path.as_str());
                m
            },
            LibError::NetworkError { timeout } => {
                let mut m = "Network timeout after ".to_owned();
                let rendered = crate::text::u64_dec(*timeout);
                m.append(rendered.as_str());
                m.append("s");
                m
            },
        }
    }

    /// This error as a report: its message for the title, the shared code
    /// and help, the given attachments, and the build facts.
    pub fn into_report(&self, attachments: Vec<String>, git_hash: String, docs_url: String) -> (r:
        LibReport)
        ensures
            r.title@ == spec_error_message(*self),
            r.code matches Some(c) && c@ == spec_error_code(),
            r.help is Some,
            r.attachments == attachments,
            r.git_hash == git_hash,
            r.docs_url == docs_url,
    {
        LibReport {
            title: self.message(),
            code: Some(self.code()),
            help: Some(self.help()),
            attachments,
            git_hash,
            docs_url,
        }
    }
}

/// A task that fails by design: it reports a configuration parse error with
/// one attached message, so that the reporting path can be exercised end to
/// end.  The build facts are the caller's, since they are stamped in at
/// packaging time.
pub fn perform_task(git_hash: &str, docs_url: &str) -> (r: Result<(), LibReport>)
    ensures
        r matches Err(rep) && rep.title@ == "Failed to parse config at config.json"@
            && (rep.code matches Some(c) && c@ == spec_error_code()) && rep.attachments@.len() == 1
            && rep.attachments@[0]@
            == "The application cannot proceed without a valid config."@,
{
    let err = LibError::ConfigParseError {
        path: "config.json".to_owned(),
        source_name: "config.json".to_owned(),
        source_text: "{ \"key\": !!invalid }".to_owned(),
        span_offset: 10,
        span_len: 9,
    };
    let mut attachments: Vec<String> = Vec::new();
    attachments.push("The application cannot proceed without a valid config.".to_owned());
    let report = err.into_report(attachments, git_hash.to_owned(), docs_url.to_owned());
    proof {
        reveal_strlit("Failed to parse config at ");
        reveal_strlit("config.json");
        reveal_strlit("Failed to parse config at config.json");
        assert(report.title@ =~= "Failed to parse config at config.json"@);
    }
    Err(report)
}

} // verus!
