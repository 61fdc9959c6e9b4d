//! Outbound command model: the closed set of controller instructions and
//! their single-line wire encodings.

use vstd::prelude::*;
use vstd::string::StringExecFns;

verus! {

/// One outbound motion-controller instruction.
///
/// `Die` is the terminal sentinel: it marks the end of the run when it is
/// popped from the pending queue and is never written to the wire, so it
/// has no encoding.
#[derive(Clone, Debug, PartialEq)]
pub enum Command {
    Heartbeat,
    PromptsSupported,
    PromptAnswerContinue,
    /// Pen servo: angle in degrees (0 to 180) and travel time in milliseconds.
    Pen(u8, u16),
    MotorsEngage,
    MotorsDisengage,
    FindHome,
    /// A program line passed through unchanged.
    Raw(String),
    EmergencyStop,
    Die,
}

/// Mathematical model of a [`Command`]: the raw payload is a character
/// sequence rather than an executable string.
pub ghost enum CmdModel {
    Heartbeat,
    PromptsSupported,
    PromptAnswerContinue,
    Pen(u8, u16),
    MotorsEngage,
    MotorsDisengage,
    FindHome,
    Raw(Seq<char>),
    EmergencyStop,
    Die,
}

impl View for Command {
    type V = CmdModel;

    open spec fn view(&self) -> CmdModel {
        match self {
            Command::Heartbeat => CmdModel::Heartbeat,
            Command::PromptsSupported => CmdModel::PromptsSupported,
            Command::PromptAnswerContinue => CmdModel::PromptAnswerContinue,
            Command::Pen(angle, ms) => CmdModel::Pen(*angle, *ms),
            Command::MotorsEngage => CmdModel::MotorsEngage,
            Command::MotorsDisengage => CmdModel::MotorsDisengage,
            Command::FindHome => CmdModel::FindHome,
            Command::Raw(line) => CmdModel::Raw(line@),
            Command::EmergencyStop => CmdModel::EmergencyStop,
            Command::Die => CmdModel::Die,
        }
    }
}

/// The character standing for one decimal digit.
pub open spec fn digit_char(d: nat) -> char {
    if d == 0 {
        '0'
    } else if d == 1 {
        '1'
    } else if d == 2 {
        '2'
    } else if d == 3 {
        '3'
    } else if d == 4 {
        '4'
    } else if d == 5 {
        '5'
    } else if d == 6 {
        '6'
    } else if d == 7 {
        '7'
    } else if d == 8 {
        '8'
    } else {
        '9'
    }
}

/// Decimal rendering of a number, most significant digit first, with no
/// leading zeros (`0` renders as `"0"`).
pub open spec fn dec_rep(n: nat) -> Seq<char>
    decreases n,
{
    if n < 10 {
        seq![digit_char(n)]
    } else {
        dec_rep(n / 10).push(digit_char(n % 10))
    }
}

/// The wire text of a command: exactly the line written to the device,
/// without the trailing newline.  The terminal sentinel has no wire text;
/// its value here is arbitrary and never relied on.
pub open spec fn wire_text(c: CmdModel) -> Seq<char>
    recommends
        !(c is Die),
{
    match c {
        CmdModel::Heartbeat => "M400"@,
        CmdModel::PromptsSupported => "M876 P1"@,
        CmdModel::PromptAnswerContinue => "M876 S0"@,
        CmdModel::Pen(angle, ms) => "M280 P0 S"@ + dec_rep(angle as nat) + " T"@ + dec_rep(
            ms as nat,
        ),
        CmdModel::MotorsEngage => "M17"@,
        CmdModel::MotorsDisengage => "M18"@,
        CmdModel::FindHome => "G28 X Y"@,
        CmdModel::Raw(line) => line,
        CmdModel::EmergencyStop => "M112"@,
        CmdModel::Die => Seq::empty(),
    }
}

/// One decimal digit as a string slice.
fn digit_str(d: u32) -> (r: &'static str)
    requires
        d < 10,
    ensures
        r@ == seq![digit_char(d as nat)],
{
    if d == 0 {
        proof {
            reveal_strlit("0");
            assert("0"@ =~= seq![digit_char(0)]);
        }
        "0"
    } else if d == 1 {
        proof {
            reveal_strlit("1");
            assert("1"@ =~= seq![digit_char(1)]);
        }
        "1"
    } else if d == 2 {
        proof {
            reveal_strlit("2");
            assert("2"@ =~= seq![digit_char(2)]);
        }
        "2"
    } else if d == 3 {
        proof {
            reveal_strlit("3");
            assert("3"@ =~= seq![digit_char(3)]);
        }
        "3"
    } else if d == 4 {
        proof {
            reveal_strlit("4");
            assert("4"@ =~= seq![digit_char(4)]);
        }
        "4"
    } else if d == 5 {
        proof {
            reveal_strlit("5");
            assert("5"@ =~= seq![digit_char(5)]);
        }
        "5"
    } else if d == 6 {
        proof {
            reveal_strlit("6");
            assert("6"@ =~= seq![digit_char(6)]);
        }
        "6"
    } else if d == 7 {
        proof {
            reveal_strlit("7");
            assert("7"@ =~= seq![digit_char(7)]);
        }
        "7"
    } else if d == 8 {
        proof {
            reveal_strlit("8");
            assert("8"@ =~= seq![digit_char(8)]);
        }
        "8"
    } else {
        proof {
            reveal_strlit("9");
            assert("9"@ =~= seq![digit_char(9)]);
        }
        "9"
    }
}

/// Appends the decimal rendering of `n` to `out`.
fn push_dec(out: &mut String, n: u32)
    ensures
        final(out)@ == old(out)@ + dec_rep(n as nat),
    decreases n,
{
    if n < 10 {
        out.append(digit_str(n));
    } else {
        push_dec(out, n / 10);
        out.append(digit_str(n % 10));
        proof {
            assert(out@ =~= old(out)@ + dec_rep(n as nat));
        }
    }
}

impl Command {
    /// Encodes a transmittable command to its wire line.  The terminal
    /// sentinel is excluded by contract: it must never reach the wire.
    pub fn encode(&self) -> (r: String)
        requires
            !(self@ is Die),
        ensures
            r@ == wire_text(self@),
    {
        match self {
            Command::Heartbeat => String::from_str("M400"),
            Command::PromptsSupported => String::from_str("M876 P1"),
            Command::PromptAnswerContinue => String::from_str("M876 S0"),
            Command::Pen(angle, ms) => {
                let mut s = String::from_str("M280 P0 S");
                push_dec(&mut s, *angle as u32);
                s.append(" T");
                push_dec(&mut s, *ms as u32);
                proof {
                    assert(s@ =~= wire_text(self@));
                }
                s
            },
            Command::MotorsEngage => String::from_str("M17"),
            Command::MotorsDisengage => String::from_str("M18"),
            Command::FindHome => String::from_str("G28 X Y"),
            Command::Raw(line) => line.clone(),
            Command::EmergencyStop => String::from_str("M112"),
            Command::Die => vstd::pervasive::unreached(),
        }
    }

    /// Encodes any command, answering `None` exactly for the terminal
    /// sentinel, which has no wire encoding.
    pub fn encode_checked(&self) -> (r: Option<String>)
        ensures
            match r {
                Some(s) => !(self@ is Die) && s@ == wire_text(self@),
                None => self@ is Die,
            },
    {
        match self {
            Command::Die => None,
            _ => Some(self.encode()),
        }
    }
}

} // verus!
