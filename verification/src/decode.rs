//! From the text of a frame to a request.

use vstd::prelude::*;
use crate::json::{
    as_number,
    as_text,
    describe,
    error_text,
    member,
    member_of,
    number_of,
    parse_document,
    parsed_document,
    text_of,
};
use crate::protocol::{
    ErrorKind,
    ErrorView,
    OptionsView,
    ProfilerError,
    Request,
    RequestOptions,
    RequestView,
};

verus! {

/// The text of the member `key` of a document, if it has one that is a
/// string.
pub open spec fn text_member(value: serde_json::Value, key: Seq<char>) -> Option<Seq<char>> {
    match member_of(value, key) {
        Some(found) => text_of(found),
        None => None,
    }
}

/// The number of the member `key` of a document, if it has one that is an
/// integer that fits `u64`.
pub open spec fn number_member(value: serde_json::Value, key: Seq<char>) -> Option<u64> {
    match member_of(value, key) {
        Some(found) => number_of(found),
        None => None,
    }
}

/// The options that a document gives under `options`; none when it has no
/// such member.
pub open spec fn options_of(document: serde_json::Value) -> OptionsView {
    match member_of(document, "options"@) {
        Some(options) => OptionsView {
            sample_data_dir: text_member(options, "sample_data_dir"@),
            agent_addr: text_member(options, "agent_addr"@),
            session_id: text_member(options, "session_id"@),
            target_pid: number_member(options, "target_pid"@),
            sample_interval_ms: number_member(options, "sample_interval_ms"@),
            sample_duration_sec: number_member(options, "sample_duration_sec"@),
        },
        None => OptionsView::empty(),
    }
}

/// The request that a document spells. The command is empty when the
/// document has no `cmd` that is a string.
pub open spec fn request_of(document: serde_json::Value) -> RequestView {
    RequestView {
        cmd: match text_member(document, "cmd"@) {
            Some(cmd) => cmd,
            None => Seq::empty(),
        },
        options: options_of(document),
    }
}

/// The request that a text spells, or the transport failure that says why
/// the text is no JSON document.
pub open spec fn decoded(text: Seq<char>) -> Result<RequestView, ErrorView> {
    match parsed_document(text) {
        Ok(document) => Ok(request_of(document)),
        Err(error) => Err(ErrorView { kind: ErrorKind::Transport, message: error_text(error) }),
    }
}

/// The text of the member `key`, if there is one that is a string.
fn read_text(value: &serde_json::Value, key: &str) -> (text: Option<String>)
    ensures
        match text {
            Some(s) => text_member(*value, key@) == Some(s@),
            None => text_member(*value, key@).is_none(),
        },
{
    match member(value, key) {
        Some(found) => match as_text(found) {
            Some(text) => Some(text.to_owned()),
            None => None,
        },
        None => None,
    }
}

/// The number of the member `key`, if there is one that fits `u64`.
fn read_number(value: &serde_json::Value, key: &str) -> (number: Option<u64>)
    ensures
        number == number_member(*value, key@),
{
    match member(value, key) {
        Some(found) => as_number(found),
        None => None,
    }
}

/// Reads the options of a document.
fn read_options(document: &serde_json::Value) -> (options: RequestOptions)
    ensures
        options@ == options_of(*document),
{
    match member(document, "options") {
        Some(options) => RequestOptions {
            sample_data_dir: read_text(options, "sample_data_dir"),
            agent_addr: read_text(options, "agent_addr"),
            session_id: read_text(options, "session_id"),
            target_pid: read_number(options, "target_pid"),
            sample_interval_ms: read_number(options, "sample_interval_ms"),
            sample_duration_sec: read_number(options, "sample_duration_sec"),
        },
        None => RequestOptions::new(),
    }
}

/// Reads a request from the text of a frame.
///
/// Any JSON document is a request: what is missing from it is missing from
/// the request. A text that is no JSON document is a transport failure.
pub fn decode_request(text: &str) -> (result: Result<Request, ProfilerError>)
    ensures
        match decoded(text@) {
            Ok(request) => result matches Ok(r) && r@ == request,
            Err(failure) => result matches Err(e) && e@ == failure,
        },
{
    match parse_document(text) {
        Ok(document) => {
            let cmd = match read_text(&document, "cmd") {
                Some(cmd) => cmd,
                None => String::new(),
            };
            Ok(Request { cmd, options: read_options(&document) })
        },
        Err(error) => Err(ProfilerError { kind: ErrorKind::Transport, message: describe(&error) }),
    }
}

} // verus!
