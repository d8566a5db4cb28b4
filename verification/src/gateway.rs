//! What one run of a command through the system's command interpreter
//! came back with, and the reading of its output as text.

use crate::text::is_garbled;
use vstd::prelude::*;
use vstd::utf8::{decode_utf8, valid_utf8};

verus! {

/// The answer to one command.
#[derive(Debug, Clone, PartialEq, Eq)]
pub enum GatewayResult {
    /// The command could not be started; holds the system's message.
    LaunchFailed(String),
    /// The command ran to its end.
    Exited {
        /// Whether it reported success.
        success: bool,
        /// What it wrote to its standard output.
        stdout: Vec<u8>,
        /// What it wrote to its standard error.
        stderr: Vec<u8>,
    },
}

/// The view of a [`GatewayResult`].
pub enum GatewayResultView {
    LaunchFailed(Seq<char>),
    Exited { success: bool, stdout: Seq<u8>, stderr: Seq<u8> },
}

impl View for GatewayResult {
    type V = GatewayResultView;

    open spec fn view(&self) -> GatewayResultView {
        match self {
            GatewayResult::LaunchFailed(m) => GatewayResultView::LaunchFailed(m@),
            GatewayResult::Exited { success, stdout, stderr } => GatewayResultView::Exited {
                success: *success,
                stdout: stdout@,
                stderr: stderr@,
            },
        }
    }
}

/// The views of the answers of `v`, in order.
pub open spec fn answer_views(v: Seq<GatewayResult>) -> Seq<GatewayResultView> {
    Seq::new(v.len(), |i: int| v[i]@)
}

/// The text that `String::from_utf8_lossy` of std reads from `bytes`:
/// every ill-formed sequence gives the replacement character U+FFFD.
pub uninterp spec fn utf8_lossy(bytes: Seq<u8>) -> Seq<char>;

/// Reads `bytes` as UTF-8 with `String::from_utf8_lossy` of std.
/// Believed, not proved: the text depends on the bytes alone, well-formed
/// UTF-8 is decoded as it stands, and ill-formed bytes leave the
/// replacement character in the text.
#[verifier::external_body]
pub(crate) fn decode_lossy(bytes: &Vec<u8>) -> (text: String)
    ensures
        text@ == utf8_lossy(bytes@),
        valid_utf8(bytes@) ==> text@ == decode_utf8(bytes@),
        !valid_utf8(bytes@) ==> is_garbled(text@),
{
    String::from_utf8_lossy(bytes).into_owned()
}

} // verus!
