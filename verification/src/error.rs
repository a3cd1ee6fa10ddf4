//! Why a record could not be processed.
use vstd::prelude::*;

verus! {

/// A failure to map a payload.
#[derive(Debug)]
pub enum MappingError {
    /// Any failure, told by its text.
    Other(String),
}

/// A failure to process a record.
#[derive(Debug)]
pub enum ProcessingError {
    /// The Kafka client failed with this text.
    Kafka(String),
    /// The payload could not be mapped.
    Mapping(MappingError),
}

/// What a `MappingError` says.
pub enum MappingErrorView {
    Other(Seq<char>),
}

/// What a `ProcessingError` says.
pub enum ProcessingErrorView {
    Kafka(Seq<char>),
    Mapping(MappingErrorView),
}

impl View for MappingError {
    type V = MappingErrorView;

    open spec fn view(&self) -> MappingErrorView {
        match self {
            MappingError::Other(text) => MappingErrorView::Other(text@),
        }
    }
}

impl View for ProcessingError {
    type V = ProcessingErrorView;

    open spec fn view(&self) -> ProcessingErrorView {
        match self {
            ProcessingError::Kafka(text) => ProcessingErrorView::Kafka(text@),
            ProcessingError::Mapping(e) => ProcessingErrorView::Mapping(e@),
        }
    }
}

impl MappingErrorView {
    /// The kind of failure, as a metric label.
    pub open spec fn name(self) -> Seq<char> {
        match self {
            MappingErrorView::Other(_) => "Other"@,
        }
    }

    /// The text shown to a reader of the log.
    pub open spec fn message(self) -> Seq<char> {
        match self {
            MappingErrorView::Other(text) => text,
        }
    }
}

impl ProcessingErrorView {
    /// The text shown to a reader of the log.
    pub open spec fn message(self) -> Seq<char> {
        match self {
            ProcessingErrorView::Kafka(text) => "kafka error: "@ + text,
            ProcessingErrorView::Mapping(e) => e.message(),
        }
    }
}

/// The outcome of processing, with the error told by its view.
pub open spec fn outcome(result: Result<(), ProcessingError>) -> Result<(), ProcessingErrorView> {
    match result {
        Ok(()) => Ok(()),
        Err(e) => Err(e@),
    }
}

impl MappingError {
    /// The kind of failure, as a metric label.
    pub fn name(&self) -> (r: &str)
        ensures
            r@ == "Other"@,
            r@ == self@.name(),
    {
        match self {
            MappingError::Other(_) => "Other",
        }
    }

    /// The text of the error.
    pub fn message(&self) -> (r: String)
        ensures
            r@ == self@.message(),
    {
        match self {
            MappingError::Other(text) => text.clone(),
        }
    }
}

impl ProcessingError {
    /// The text of the error: a client failure is introduced as one, a mapping
    /// failure speaks for itself.
    pub fn message(&self) -> (r: String)
        ensures
            r@ == self@.message(),
    {
        match self {
            ProcessingError::Kafka(text) => "kafka error: ".to_owned().concat(text.as_str()),
            ProcessingError::Mapping(e) => e.message(),
        }
    }
}

impl From<MappingError> for ProcessingError {
    fn from(e: MappingError) -> (r: ProcessingError) {
        ProcessingError::Mapping(e)
    }
}

impl vstd::std_specs::convert::FromSpecImpl<MappingError> for ProcessingError {
    open spec fn obeys_from_spec() -> bool {
        true
    }

    open spec fn from_spec(e: MappingError) -> ProcessingError {
        ProcessingError::Mapping(e)
    }
}

/// A client failure is shown as its text behind an introduction, a mapping failure
/// as its text alone.
pub proof fn messages_show_the_text(text: Seq<char>)
    ensures
        "kafka error: "@.len() == 13,
        ProcessingErrorView::Kafka(text).message().len() == 13 + text.len(),
        ProcessingErrorView::Kafka(text).message().take(13) == "kafka error: "@,
        ProcessingErrorView::Kafka(text).message().skip(13) == text,
        ProcessingErrorView::Mapping(MappingErrorView::Other(text)).message() == text,
        MappingErrorView::Other(text).message() == text,
{
    reveal_strlit("kafka error: ");
    assert(ProcessingErrorView::Kafka(text).message().take(13) =~= "kafka error: "@);
    assert(ProcessingErrorView::Kafka(text).message().skip(13) =~= text);
}

/// The view of an error tells its kind and its text.
pub proof fn views_tell_the_error(text: String, mapping: MappingError)
    ensures
        MappingError::Other(text)@ == MappingErrorView::Other(text@),
        ProcessingError::Kafka(text)@ == ProcessingErrorView::Kafka(text@),
        ProcessingError::Mapping(mapping)@ == ProcessingErrorView::Mapping(mapping@),
{
}

/// The view of an outcome is a success for a success alone, and else tells the
/// error.
pub proof fn outcomes_tell_the_error(e: ProcessingError)
    ensures
        outcome(Ok(())) is Ok,
        outcome(Err(e)) == Err::<(), _>(e@),
{
}

/// A mapping error becomes the processing error that holds it.
pub proof fn conversion_keeps_the_error(e: MappingError)
    ensures
        <ProcessingError as vstd::std_specs::convert::FromSpec<MappingError>>::obeys_from_spec(),
        <ProcessingError as vstd::std_specs::convert::FromSpec<MappingError>>::from_spec(e)
            matches ProcessingError::Mapping(held) && held == e,
{
}

/// The kind of a mapping failure does not depend on its text.
pub proof fn names_ignore_the_text(a: Seq<char>, b: Seq<char>)
    ensures
        MappingErrorView::Other(a).name() == MappingErrorView::Other(b).name(),
        MappingErrorView::Other(a).name() == "Other"@,
{
}

} // verus!
