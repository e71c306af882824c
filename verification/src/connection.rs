//! What one connection does on each frame, and whether a connection is
//! taken at all.

use vstd::prelude::*;
use crate::decode::decoded;
use crate::handlers::step_for;
use crate::profiler::{Profiler, ProfilerView};
use crate::protocol::{
    error_response,
    text_views,
    wrap_error_response,
    AttachSettings,
    DataView,
    ErrorKind,
    ErrorView,
    FlareResponse,
    Pending,
    PendingView,
    ProfilerError,
    RequestView,
    ResponseData,
    ResponseView,
    Step,
    StepView,
};

verus! {

/// The subprotocol that a client has to offer.
pub const WS_PROTOCOL: &'static str = "flare-profiler";

/// The directory, relative to where the server runs, that holds the sample
/// files of earlier runs.
pub const HISTORY_ROOT: &'static str = "flare-samples";

/// A frame of the connection, as far as the protocol looks at it.
#[derive(Clone, Debug, PartialEq, Eq)]
pub enum Frame {
    Text(String),
    Binary(Vec<u8>),
    Close,
    Ping(Vec<u8>),
    Pong(Vec<u8>),
}

/// A `Frame` as mathematical values.
pub enum FrameView {
    Text(Seq<char>),
    Binary(Seq<u8>),
    Close,
    Ping(Seq<u8>),
    Pong(Seq<u8>),
}

impl View for Frame {
    type V = FrameView;

    open spec fn view(&self) -> FrameView {
        match self {
            Frame::Text(text) => FrameView::Text(text@),
            Frame::Binary(bytes) => FrameView::Binary(bytes@),
            Frame::Close => FrameView::Close,
            Frame::Ping(payload) => FrameView::Ping(payload@),
            Frame::Pong(payload) => FrameView::Pong(payload@),
        }
    }
}

/// What a connection does next.
#[derive(Clone, Debug, PartialEq, Eq)]
pub enum Turn {
    /// Send the frame and read on.
    Send(Frame),
    /// Send the frame and end the connection.
    Finish(Frame),
    /// Send the response as one text frame and read on.
    Respond(FlareResponse<ResponseData>),
    /// Do the work, hand its outcome to `complete` under `cmd`, send what
    /// comes back, and read on.
    Perform { cmd: String, work: Pending },
    /// The parameters of an attach are in order; nothing is sent. Read on.
    Attach(AttachSettings),
    /// Nothing to do. Read on.
    Idle,
    /// The frame is no request: end the connection.
    Abort(ProfilerError),
}

/// A `Turn` as mathematical values.
pub enum TurnView {
    Send(FrameView),
    Finish(FrameView),
    Respond(ResponseView<DataView>),
    Perform { cmd: Seq<char>, work: PendingView },
    Attach(AttachSettings),
    Idle,
    Abort(ErrorView),
}

impl View for Turn {
    type V = TurnView;

    open spec fn view(&self) -> TurnView {
        match self {
            Turn::Send(frame) => TurnView::Send(frame@),
            Turn::Finish(frame) => TurnView::Finish(frame@),
            Turn::Respond(response) => TurnView::Respond(response@),
            Turn::Perform { cmd, work } => TurnView::Perform { cmd: cmd@, work: work@ },
            Turn::Attach(settings) => TurnView::Attach(*settings),
            Turn::Idle => TurnView::Idle,
            Turn::Abort(e) => TurnView::Abort(e@),
        }
    }
}

/// What a connection does on a frame.
///
/// A close is answered with a close and ends the connection. A ping is
/// answered with a pong of the same payload. A text is read as a request:
/// if it is none, the connection ends; a failure of the command is sent as
/// an error response under the command's name. Any other frame is sent
/// back as it came.
pub open spec fn turn_for(profiler: ProfilerView, frame: FrameView) -> TurnView {
    match frame {
        FrameView::Close => TurnView::Finish(FrameView::Close),
        FrameView::Ping(payload) => TurnView::Send(FrameView::Pong(payload)),
        FrameView::Text(text) => match decoded(text) {
            Ok(request) => match step_for(profiler, request) {
                Ok(StepView::Reply(response)) => TurnView::Respond(response),
                Ok(StepView::Await(work)) => TurnView::Perform { cmd: request.cmd, work },
                Ok(StepView::Attach(settings)) => TurnView::Attach(settings),
                Ok(StepView::Silent) => TurnView::Idle,
                Err(e) => TurnView::Respond(error_response(request.cmd, e.message)),
            },
            Err(e) => TurnView::Abort(e),
        },
        FrameView::Binary(_) => TurnView::Send(frame),
        FrameView::Pong(_) => TurnView::Send(frame),
    }
}

/// Whether the server takes one more connection.
#[derive(Clone, Copy, Debug, PartialEq, Eq, Structural)]
pub enum Admission {
    /// The server has been asked to stop: take no more connections.
    Stop,
    /// The client does not offer the subprotocol: turn it away.
    Reject,
    /// Take the connection, on the subprotocol.
    Accept,
}

/// Whether a client that offers the subprotocols `offered` is taken.
pub open spec fn admission(profiler: ProfilerView, offered: Seq<Seq<char>>) -> Admission {
    if !profiler.running {
        Admission::Stop
    } else if offered.contains(WS_PROTOCOL@) {
        Admission::Accept
    } else {
        Admission::Reject
    }
}

/// A failure that a command ends in is never of kind `Transport`.
pub proof fn lemma_command_failure_is_not_transport(profiler: ProfilerView, request: RequestView)
    ensures
        step_for(profiler, request) matches Err(e) ==> e.kind != ErrorKind::Transport,
{
}

impl Profiler {
    /// Decides whether the server takes a client that offers the
    /// subprotocols `offered`.
    pub fn on_upgrade(&self, offered: &Vec<String>) -> (decision: Admission)
        ensures
            decision == admission(self@, text_views(offered@)),
    {
        if !self.is_running() {
            return Admission::Stop;
        }
        let wanted = WS_PROTOCOL.to_owned();
        let mut i: usize = 0;
        while i < offered.len()
            invariant
                self@.running,
                i <= offered@.len(),
                wanted@ == WS_PROTOCOL@,
                forall|j: int| 0 <= j < i ==> (#[trigger] text_views(offered@)[j]) != WS_PROTOCOL@,
            decreases offered@.len() - i,
        {
            if offered[i] == wanted {
                assert(text_views(offered@)[i as int] == WS_PROTOCOL@);
                return Admission::Accept;
            }
            i = i + 1;
        }
        Admission::Reject
    }

    /// Decides what the connection does on a frame.
    pub fn handle_frame(&self, frame: Frame) -> (turn: Turn)
        ensures
            turn@ == turn_for(self@, frame@),
    {
        match frame {
            Frame::Close => Turn::Finish(Frame::Close),
            Frame::Ping(payload) => Turn::Send(Frame::Pong(payload)),
            Frame::Text(text) => {
                let mut cmd = String::new();
                let result = self.handle_request(text.as_str(), &mut cmd);
                proof {
                    if decoded(text@) is Ok {
                        lemma_command_failure_is_not_transport(self@, decoded(text@)->Ok_0);
                        assert(cmd@ =~= decoded(text@)->Ok_0.cmd);
                    }
                }
                match result {
                    Ok(Step::Reply(response)) => Turn::Respond(response),
                    Ok(Step::Await(work)) => Turn::Perform { cmd, work },
                    Ok(Step::Attach(settings)) => Turn::Attach(settings),
                    Ok(Step::Silent) => Turn::Idle,
                    Err(e) => match e.kind {
                        ErrorKind::Transport => Turn::Abort(e),
                        _ => Turn::Respond(wrap_error_response(cmd.as_str(), e.message.as_str())),
                    },
                }
            },
            Frame::Binary(bytes) => Turn::Send(Frame::Binary(bytes)),
            Frame::Pong(payload) => Turn::Send(Frame::Pong(payload)),
        }
    }
}

} // verus!
