use vstd::prelude::*;

use vstd::string::StrSliceExecFns;

verus! {

/// Why the coordinator refused or failed a request.
#[derive(Clone, Copy, Debug, PartialEq, Eq, Structural)]
pub enum ErrorReason {
    /// The request's action is neither a phase nor a dependency upload.
    UnknownAction,
    /// The request could not be read, or its fields do not fit its action.
    MalformedRequest,
    /// The declared peers did not all reach the barrier within the retry budget.
    Timeout,
}

/// The coordinator's answer to one request.
#[derive(Clone, Copy, Debug, PartialEq, Eq, Structural)]
pub enum Response {
    /// Released from the barrier, or the upload was accepted.
    Success,
    Failure(ErrorReason),
}

/// The text that explains an error reason on the wire.
pub open spec fn reason_text(r: ErrorReason) -> Seq<char> {
    match r {
        ErrorReason::UnknownAction => "unknown action"@,
        ErrorReason::MalformedRequest => "malformed request"@,
        ErrorReason::Timeout => "timed out waiting for dependencies"@,
    }
}

/// The JSON object that carries a response.
pub open spec fn response_json(r: Response) -> Seq<char> {
    match r {
        Response::Success => "{\"status\":\"ok\"}"@,
        Response::Failure(e) => "{\"status\":\"error\",\"reason\":\""@ + reason_text(e) + "\"}"@,
    }
}

/// The frame that carries a response: its JSON object and a newline.
pub open spec fn response_frame(r: Response) -> Seq<char> {
    response_json(r) + "\n"@
}

/// A received line without its one trailing newline, if it has one.
pub open spec fn strip_newline(s: Seq<char>) -> Seq<char> {
    if s.len() > 0 && s.last() == '\n' {
        s.drop_last()
    } else {
        s
    }
}

impl ErrorReason {
    /// The text that explains this reason.
    pub fn text(self) -> (r: &'static str)
        ensures
            r@ == reason_text(self),
    {
        match self {
            ErrorReason::UnknownAction => "unknown action",
            ErrorReason::MalformedRequest => "malformed request",
            ErrorReason::Timeout => "timed out waiting for dependencies",
        }
    }
}

impl Response {
    /// Whether the hook that receives this response succeeds.
    pub open spec fn spec_is_ok(self) -> bool {
        self is Success
    }

    /// The exit status of a hook that received this response: 0 on success,
    /// 1 on any error.
    pub fn exit_code(self) -> (r: i32)
        ensures
            r == (if self.spec_is_ok() { 0i32 } else { 1i32 }),
    {
        match self {
            Response::Success => 0,
            Response::Failure(_) => 1,
        }
    }

    /// Writes the response frame.
    pub fn to_frame(self) -> (r: String)
        ensures
            r@ == response_frame(self),
    {
        let mut s = self.to_json();
        s.append("\n");
        s
    }

    /// Writes the response's JSON object.
    pub fn to_json(self) -> (r: String)
        ensures
            r@ == response_json(self),
    {
        match self {
            Response::Success => String::from_str("{\"status\":\"ok\"}"),
            Response::Failure(e) => {
                let mut s = String::from_str("{\"status\":\"error\",\"reason\":\"");
                s.append(e.text());
                s.append("\"}");
                s
            },
        }
    }

    /// Reads a response line as the coordinator writes it; `None` where the
    /// line is no response frame.
    pub fn parse(line: &str) -> (r: Option<Response>)
        ensures
            match r {
                Some(x) => strip_newline(line@) == response_json(x),
                None => forall|x: Response| strip_newline(line@) != #[trigger] response_json(x),
            },
    {
        let n = line.unicode_len();
        let body = if n > 0 && line.get_char(n - 1) == '\n' {
            line.substring_char(0, n - 1)
        } else {
            line
        };
        assert(body@ == strip_newline(line@));
        let candidates = [
            Response::Success,
            Response::Failure(ErrorReason::UnknownAction),
            Response::Failure(ErrorReason::MalformedRequest),
            Response::Failure(ErrorReason::Timeout),
        ];
        let mut i: usize = 0;
        while i < 4
            invariant
                body@ == strip_newline(line@),
                candidates@ == seq![
                    Response::Success,
                    Response::Failure(ErrorReason::UnknownAction),
                    Response::Failure(ErrorReason::MalformedRequest),
                    Response::Failure(ErrorReason::Timeout),
                ],
                i <= 4,
                forall|k: int| 0 <= k < i ==> body@ != response_json(#[trigger] candidates@[k]),
            decreases 4 - i,
        {
            let x = candidates[i];
            let text = x.to_json();
            if crate::text::str_eq(body, text.as_str()) {
                return Some(x);
            }
            i = i + 1;
        }
        assert forall|x: Response| body@ != #[trigger] response_json(x) by {
            match x {
                Response::Success => assert(x == candidates@[0]),
                Response::Failure(ErrorReason::UnknownAction) => assert(x == candidates@[1]),
                Response::Failure(ErrorReason::MalformedRequest) => assert(x == candidates@[2]),
                Response::Failure(ErrorReason::Timeout) => assert(x == candidates@[3]),
            }
        }
        None
    }
}

/// What a request declares about dependencies.
pub enum Dependencies {
    /// The sender's own dependencies, colon-separated; sent with a phase.
    Declared(String),
    /// A whole graph; sent with a dependency upload.
    Graph(Vec<(String, Vec<String>)>),
}

/// One request from a hook, as read off the wire.
pub struct Request {
    pub id: String,
    pub action: String,
    pub dependencies: Dependencies,
}


/// Distinct responses have distinct JSON objects, so a frame read back is
/// the response that was written.
pub proof fn lemma_response_json_injective(x: Response, y: Response)
    requires
        response_json(x) == response_json(y),
    ensures
        x == y,
{
    reveal_strlit("{\"status\":\"ok\"}");
    reveal_strlit("{\"status\":\"error\",\"reason\":\"");
    reveal_strlit("\"}");
    reveal_strlit("unknown action");
    reveal_strlit("malformed request");
    reveal_strlit("timed out waiting for dependencies");
    let px = "{\"status\":\"error\",\"reason\":\""@;
    if x != y {
        if x is Success || y is Success {
            let e = if x is Success { y } else { x };
            assert(response_json(e)[11] != response_json(Response::Success)[11]);
        } else if let (Response::Failure(a), Response::Failure(b)) = (x, y) {
            assert(reason_text(a).len() != reason_text(b).len());
            assert(response_json(x).len() == px.len() + reason_text(a).len() + 2);
            assert(response_json(y).len() == px.len() + reason_text(b).len() + 2);
        }
    }
}


/// Reading a written frame gives its JSON object back: with the lemma above,
/// the only response that `Response::parse` can return for it.
pub proof fn lemma_frame_round_trip(x: Response)
    ensures
        strip_newline(response_frame(x)) == response_json(x),
{
    reveal_strlit("\n");
    let f = response_frame(x);
    assert(f.last() == '\n');
    assert(f.drop_last() =~= response_json(x));
}

} // verus!
