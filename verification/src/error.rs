//! What a request can fail with.
use vstd::prelude::*;
use vstd::string::*;

verus! {

/// A failure that is reported to the caller of a request.
#[derive(Debug)]
pub enum NodegetError {
    ParseError(String),
    InvalidInput(String),
    PermissionDenied(String),
    NotFound(String),
    DatabaseError(String),
    SerializationError(String),
    AgentConnectionError(String),
}

/// A failure with its message as a sequence of characters.
pub enum NodegetErrorView {
    ParseError(Seq<char>),
    InvalidInput(Seq<char>),
    PermissionDenied(Seq<char>),
    NotFound(Seq<char>),
    DatabaseError(Seq<char>),
    SerializationError(Seq<char>),
    AgentConnectionError(Seq<char>),
}

impl View for NodegetError {
    type V = NodegetErrorView;

    open spec fn view(&self) -> NodegetErrorView {
        match self {
            NodegetError::ParseError(m) => NodegetErrorView::ParseError(m@),
            NodegetError::InvalidInput(m) => NodegetErrorView::InvalidInput(m@),
            NodegetError::PermissionDenied(m) => NodegetErrorView::PermissionDenied(m@),
            NodegetError::NotFound(m) => NodegetErrorView::NotFound(m@),
            NodegetError::DatabaseError(m) => NodegetErrorView::DatabaseError(m@),
            NodegetError::SerializationError(m) => NodegetErrorView::SerializationError(m@),
            NodegetError::AgentConnectionError(m) => NodegetErrorView::AgentConnectionError(m@),
        }
    }
}

/// `label` with `text` behind it.
pub(crate) fn labelled(label: &str, text: &str) -> (r: String)
    ensures
        r@ == label@ + text@,
{
    String::from_str(label).concat(text)
}

/// The data that goes with a reported failure: what was rendered of it, or a fixed text where
/// that failed.
pub fn error_data(rendered: Option<String>) -> (data: String)
    ensures
        rendered matches Some(text) ==> data@ == text@,
        rendered is None ==> data@ == "{\"error_id\":999,\"error_message\":\"Internal error\"}"@,
{
    match rendered {
        Some(text) => text,
        None => "{\"error_id\":999,\"error_message\":\"Internal error\"}".to_owned(),
    }
}

/// A failure keeps its kind and its message.
pub proof fn law_failures_keep_their_messages(error: NodegetError)
    ensures
        error matches NodegetError::ParseError(m) ==> error@ == NodegetErrorView::ParseError(m@),
        error matches NodegetError::InvalidInput(m) ==> error@ == NodegetErrorView::InvalidInput(
            m@,
        ),
        error matches NodegetError::PermissionDenied(m) ==> error@
            == NodegetErrorView::PermissionDenied(m@),
        error matches NodegetError::NotFound(m) ==> error@ == NodegetErrorView::NotFound(m@),
        error matches NodegetError::DatabaseError(m) ==> error@ == NodegetErrorView::DatabaseError(
            m@,
        ),
        error matches NodegetError::SerializationError(m) ==> error@
            == NodegetErrorView::SerializationError(m@),
        error matches NodegetError::AgentConnectionError(m) ==> error@
            == NodegetErrorView::AgentConnectionError(m@),
{
}

} // verus!
