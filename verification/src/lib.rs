//! A relay for group messaging over a line-oriented byte stream.
//!
//! The library holds the parts of the relay that decide: the frame decoder
//! that turns a byte stream into commands, the per-connection rules that say
//! what each command leads to, and the coordinator that owns the connection
//! registry and the key-package directory. Sockets, tasks and the
//! cryptographic engine stay with the program that drives it.

use vstd::prelude::*;
use vstd::string::StringExecFns;

pub mod buffer;
pub mod client;
pub mod configuration;
pub mod directory;
pub mod identity;
pub mod main_loop;
pub mod stream;
pub mod telnet;

verus! {

/// Identifier of one accepted connection. Identifiers are handed out in
/// increasing order and never reused.
#[derive(Copy, Clone, Debug, Eq, PartialEq, Hash, Structural)]
pub struct ClientId(pub usize);

/// The character of a decimal digit.
pub open spec fn digit(d: nat) -> char {
    if d == 0 {
        '0'
    } else if d == 1 {
        '1'
    } else if d == 2 {
        '2'
    } else if d == 3 {
        '3'
    } else if d == 4 {
        '4'
    } else if d == 5 {
        '5'
    } else if d == 6 {
        '6'
    } else if d == 7 {
        '7'
    } else if d == 8 {
        '8'
    } else {
        '9'
    }
}

/// A number in decimal, without leading zeros.
pub open spec fn decimal(n: nat) -> Seq<char>
    decreases n,
{
    if n < 10 {
        seq![digit(n)]
    } else {
        decimal(n / 10).push(digit(n % 10))
    }
}

/// The name of a connection: `Client(`, its number in decimal, `)`.
pub open spec fn client_name(id: ClientId) -> Seq<char> {
    "Client("@ + decimal(id.0 as nat) + ")"@
}

/// The text of one decimal digit.
fn digit_text(d: usize) -> (text: &'static str)
    requires
        d < 10,
    ensures
        text@ == seq![digit(d as nat)],
{
    proof {
        reveal_strlit("0");
        reveal_strlit("1");
        reveal_strlit("2");
        reveal_strlit("3");
        reveal_strlit("4");
        reveal_strlit("5");
        reveal_strlit("6");
        reveal_strlit("7");
        reveal_strlit("8");
        reveal_strlit("9");
    }
    let text = if d == 0 {
        "0"
    } else if d == 1 {
        "1"
    } else if d == 2 {
        "2"
    } else if d == 3 {
        "3"
    } else if d == 4 {
        "4"
    } else if d == 5 {
        "5"
    } else if d == 6 {
        "6"
    } else if d == 7 {
        "7"
    } else if d == 8 {
        "8"
    } else {
        "9"
    };
    assert(text@ =~= seq![digit(d as nat)]);
    text
}

/// Puts `n` in decimal behind what `out` holds.
pub(crate) fn write_decimal(n: usize, out: &mut String)
    ensures
        final(out)@ == old(out)@ + decimal(n as nat),
    decreases n,
{
    if n >= 10 {
        write_decimal(n / 10, out);
    }
    out.append(digit_text(n % 10));
    assert(out@ =~= old(out)@ + decimal(n as nat));
}

impl ClientId {
    /// The name of the connection, as it is shown and as its key packages
    /// carry it.
    pub fn to_text(&self) -> (text: String)
        ensures
            text@ == client_name(*self),
    {
        let mut text = String::from_str("Client(");
        write_decimal(self.0, &mut text);
        text.append(")");
        assert(text@ =~= client_name(*self));
        text
    }
}

} // verus!
