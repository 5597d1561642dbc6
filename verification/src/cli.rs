//! What the program is asked to do.
use vstd::prelude::*;

use crate::text::{chars_of, has_prefix, string_of};

verus! {

/// What the program is asked to do.
#[derive(Clone, Debug, PartialEq, Eq)]
pub enum Mode {
    /// Serve requests.
    Daemon,
    /// Run a state machine of the age plugin protocol.
    Plugin(String),
    /// Convert the identities in a file.
    Convert(String),
}

/// A [`Mode`] as sequences of characters.
pub enum ModeView {
    Daemon,
    Plugin(Seq<char>),
    Convert(Seq<char>),
}

impl View for Mode {
    type V = ModeView;

    open spec fn view(&self) -> ModeView {
        match *self {
            Mode::Daemon => ModeView::Daemon,
            Mode::Plugin(machine) => ModeView::Plugin(machine@),
            Mode::Convert(path) => ModeView::Convert(path@),
        }
    }
}

/// What the first argument asks for: none runs the daemon, `--age-plugin=` names a state
/// machine, and any other is the path of an identity file.
pub open spec fn mode_of(arg: Option<Seq<char>>) -> ModeView {
    match arg {
        None => ModeView::Daemon,
        Some(arg) => if crate::text::starts_with(arg, "--age-plugin="@) {
            ModeView::Plugin(arg.skip("--age-plugin="@.len() as int))
        } else {
            ModeView::Convert(arg)
        },
    }
}

impl Mode {
    /// Reads the first argument of the program.
    pub fn from_arg(arg: Option<String>) -> (r: Mode)
        ensures
            r@ == mode_of(
                match arg {
                    Some(arg) => Some(arg@),
                    None => None,
                },
            ),
    {
        match arg {
            None => Mode::Daemon,
            Some(arg) => {
                let chars = chars_of(arg.as_str());
                if has_prefix(chars.as_slice(), "--age-plugin=") {
                    proof {
                        reveal_strlit("--age-plugin=");
                    }
                    let machine = string_of(&chars[13..chars.len()]);
                    assert(machine@ =~= arg@.skip(13));
                    Mode::Plugin(machine)
                } else {
                    Mode::Convert(arg)
                }
            },
        }
    }
}

/// No argument runs the daemon; `--age-plugin=` followed by anything names that state machine;
/// any other argument is a path, taken as it stands.
pub proof fn law_argument_picks_the_mode(arg: Seq<char>, mode: Mode)
    ensures
        mode@ == mode_of(None) ==> mode is Daemon,
        mode@ == mode_of(Some("--age-plugin="@ + arg)) ==> (mode matches Mode::Plugin(machine)
            && machine@ == arg),
        mode@ == mode_of(Some(arg)) && (forall|rest: Seq<char>|
            arg != #[trigger] ("--age-plugin="@ + rest)) ==> (mode matches Mode::Convert(path)
            && path@ == arg),
{
    crate::text::law_starts_with(arg, "--age-plugin="@);
    let whole = "--age-plugin="@ + arg;
    crate::text::law_starts_with(whole, "--age-plugin="@);
    assert(whole.skip("--age-plugin="@.len() as int) =~= arg);
}

} // verus!
