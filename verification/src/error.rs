//! What can go wrong in one operation against the model server.

use vstd::prelude::*;
use vstd::string::*;
use vstd::utf8::{decode_utf8, valid_utf8};

verus! {

/// The failure of one operation. No failure is retried by this library.
#[derive(Debug, Clone, PartialEq, Eq)]
pub enum ClientError {
    /// The server could not be reached, or the connection broke while an
    /// answer was being read.
    Transport(String),
    /// The server answered with a status outside the success range; `body`
    /// is the text of its answer.
    Server { status: u16, body: String },
    /// The answer was no JSON, or JSON of another shape than expected.
    Protocol,
}

/// What a [`ClientError`] holds.
pub enum ClientErrorView {
    Transport(Seq<char>),
    Server { status: u16, body: Seq<char> },
    Protocol,
}

impl View for ClientError {
    type V = ClientErrorView;

    open spec fn view(&self) -> ClientErrorView {
        match self {
            ClientError::Transport(reason) => ClientErrorView::Transport(reason@),
            ClientError::Server { status, body } => ClientErrorView::Server {
                status: *status,
                body: body@,
            },
            ClientError::Protocol => ClientErrorView::Protocol,
        }
    }
}

/// The text that `bytes` spell when read as UTF-8, with U+FFFD in the place
/// of every part that is no UTF-8.
pub uninterp spec fn utf8_lossy(bytes: Seq<u8>) -> Seq<char>;

/// `String::from_utf8_lossy`: the text of `bytes`; where the bytes are
/// valid UTF-8, the text that they encode, unchanged.
#[verifier::external_body]
pub(crate) fn lossy_text(bytes: &[u8]) -> (r: String)
    ensures
        r@ == utf8_lossy(bytes@),
        valid_utf8(bytes@) ==> r@ == decode_utf8(bytes@),
{
    String::from_utf8_lossy(bytes).into_owned()
}

/// The view of the result of an operation that has no payload.
pub open spec fn outcome_view(r: Result<(), ClientError>) -> Result<(), ClientErrorView> {
    match r {
        Ok(()) => Ok(()),
        Err(e) => Err(e@),
    }
}

/// The character of a decimal digit.
pub open spec fn digit_char(d: nat) -> char {
    if d == 0 {
        '0'
    } else if d == 1 {
        '1'
    } else if d == 2 {
        '2'
    } else if d == 3 {
        '3'
    } else if d == 4 {
        '4'
    } else if d == 5 {
        '5'
    } else if d == 6 {
        '6'
    } else if d == 7 {
        '7'
    } else if d == 8 {
        '8'
    } else {
        '9'
    }
}

/// The decimal digits of `n`, without leading zeros.
pub open spec fn decimal(n: nat) -> Seq<char>
    decreases n,
{
    if n < 10 {
        seq![digit_char(n)]
    } else {
        decimal(n / 10).push(digit_char(n % 10))
    }
}

/// The one message under which a failure is shown to the user.
pub open spec fn message_of(e: ClientErrorView) -> Seq<char> {
    match e {
        ClientErrorView::Transport(reason) => "transport error: "@ + reason,
        ClientErrorView::Server { status, body } => "server error "@ + decimal(status as nat)
            + ": "@ + body,
        ClientErrorView::Protocol => "protocol error: the response is not the expected JSON"@,
    }
}

fn digit_text(d: u16) -> (r: &'static str)
    requires
        d < 10,
    ensures
        r@ == seq![digit_char(d as nat)],
{
    proof {
        reveal_strlit("0");
        reveal_strlit("1");
        reveal_strlit("2");
        reveal_strlit("3");
        reveal_strlit("4");
        reveal_strlit("5");
        reveal_strlit("6");
        reveal_strlit("7");
        reveal_strlit("8");
        reveal_strlit("9");
    }
    let r = if d == 0 {
        "0"
    } else if d == 1 {
        "1"
    } else if d == 2 {
        "2"
    } else if d == 3 {
        "3"
    } else if d == 4 {
        "4"
    } else if d == 5 {
        "5"
    } else if d == 6 {
        "6"
    } else if d == 7 {
        "7"
    } else if d == 8 {
        "8"
    } else {
        "9"
    };
    assert(r@ =~= seq![digit_char(d as nat)]);
    r
}

fn append_decimal(text: &mut String, n: u16)
    ensures
        final(text)@ == old(text)@ + decimal(n as nat),
    decreases n,
{
    if n >= 10 {
        append_decimal(text, n / 10);
    }
    text.append(digit_text(n % 10));
    assert(text@ =~= old(text)@ + decimal(n as nat));
}

impl ClientError {
    /// The message under which this failure is shown to the user.
    pub fn message(&self) -> (r: String)
        ensures
            r@ == message_of(self@),
    {
        match self {
            ClientError::Transport(reason) => String::from_str("transport error: ").concat(
                reason.as_str(),
            ),
            ClientError::Server { status, body } => {
                let mut text = String::from_str("server error ");
                append_decimal(&mut text, *status);
                text.concat(": ").concat(body.as_str())
            },
            ClientError::Protocol => String::from_str(
                "protocol error: the response is not the expected JSON",
            ),
        }
    }
}

} // verus!
