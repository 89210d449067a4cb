use vstd::prelude::*;

verus! {

/// The failures of the library, each with the text that describes it.
#[derive(Debug, Clone, PartialEq, Eq)]
pub enum EpistemError {
    Io(String),
    Json(String),
    Yaml(String),
    MissingManifest(String),
    InvalidManifest { path: String, reason: String },
    Resolution(String),
    Registry(String),
    Search(String),
}

/// An error seen through the texts it carries.
pub enum ErrorView {
    Io(Seq<char>),
    Json(Seq<char>),
    Yaml(Seq<char>),
    MissingManifest(Seq<char>),
    InvalidManifest { path: Seq<char>, reason: Seq<char> },
    Resolution(Seq<char>),
    Registry(Seq<char>),
    Search(Seq<char>),
}

impl View for EpistemError {
    type V = ErrorView;

    open spec fn view(&self) -> ErrorView {
        match self {
            EpistemError::Io(s) => ErrorView::Io(s@),
            EpistemError::Json(s) => ErrorView::Json(s@),
            EpistemError::Yaml(s) => ErrorView::Yaml(s@),
            EpistemError::MissingManifest(s) => ErrorView::MissingManifest(s@),
            EpistemError::InvalidManifest { path, reason } => ErrorView::InvalidManifest {
                path: path@,
                reason: reason@,
            },
            EpistemError::Resolution(s) => ErrorView::Resolution(s@),
            EpistemError::Registry(s) => ErrorView::Registry(s@),
            EpistemError::Search(s) => ErrorView::Search(s@),
        }
    }
}

/// The text that describes an error to a person.
pub open spec fn error_message(e: ErrorView) -> Seq<char> {
    match e {
        ErrorView::Io(s) => "I/O error: "@ + s,
        ErrorView::Json(s) => "JSON error: "@ + s,
        ErrorView::Yaml(s) => "YAML error: "@ + s,
        ErrorView::MissingManifest(s) => "missing capability manifest at "@ + s,
        ErrorView::InvalidManifest { path, reason } => "invalid capability manifest at "@ + path
            + ": "@ + reason,
        ErrorView::Resolution(s) => "dependency resolution failed: "@ + s,
        ErrorView::Registry(s) => "registry error: "@ + s,
        ErrorView::Search(s) => "search error: "@ + s,
    }
}

impl EpistemError {
    /// The text that describes this error to a person.
    pub fn message(&self) -> (m: String)
        ensures
            m@ == error_message(self@),
    {
        match self {
            EpistemError::Io(s) => crate::text::concat("I/O error: ", s.as_str()),
            EpistemError::Json(s) => crate::text::concat("JSON error: ", s.as_str()),
            EpistemError::Yaml(s) => crate::text::concat("YAML error: ", s.as_str()),
            EpistemError::MissingManifest(s) => crate::text::concat(
                "missing capability manifest at ",
                s.as_str(),
            ),
            EpistemError::InvalidManifest { path, reason } => {
                let mut m = crate::text::concat3(
                    "invalid capability manifest at ",
                    path.as_str(),
                    ": ",
                );
                m.append(reason.as_str());
                m
            },
            EpistemError::Resolution(s) => crate::text::concat(
                "dependency resolution failed: ",
                s.as_str(),
            ),
            EpistemError::Registry(s) => crate::text::concat("registry error: ", s.as_str()),
            EpistemError::Search(s) => crate::text::concat("search error: ", s.as_str()),
        }
    }
}

} // verus!
