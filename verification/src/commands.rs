//! The exact command lines the controller hands to the outside process
//! runner: fan-speed programming, automatic-mode reset, display access
//! grants and the session keepalive no-op.
//!
//! The library only assembles these commands; running them is the caller's
//! business.

use vstd::prelude::*;
use vstd::string::StringExecFns;
use crate::quantize::{quantize, spec_quantize};
use crate::units::MAX_DUTY;

verus! {

/// The character a single decimal digit prints as.
pub open spec fn digit_char(d: int) -> char {
    if d == 0 {
        '0'
    } else if d == 1 {
        '1'
    } else if d == 2 {
        '2'
    } else if d == 3 {
        '3'
    } else if d == 4 {
        '4'
    } else if d == 5 {
        '5'
    } else if d == 6 {
        '6'
    } else if d == 7 {
        '7'
    } else if d == 8 {
        '8'
    } else {
        '9'
    }
}

/// The decimal digits of a non-negative number, most significant first.
pub open spec fn dec_str_nat(n: int) -> Seq<char>
    decreases n,
{
    if n < 10 {
        seq![digit_char(n)]
    } else {
        dec_str_nat(n / 10) + seq![digit_char(n % 10)]
    }
}

/// The decimal rendering of a signed number: a minus sign before the
/// digits of its magnitude.
pub open spec fn dec_str_i8(n: int) -> Seq<char> {
    if n < 0 {
        seq!['-'] + dec_str_nat(-n)
    } else {
        dec_str_nat(n)
    }
}

/// The one-character string a digit prints as.
fn digit_str(d: u8) -> (r: &'static str)
    requires
        d < 10,
    ensures
        r@ == seq![digit_char(d as int)],
{
    if d == 0 {
        proof {
            reveal_strlit("0");
        }
        assert("0"@ =~= seq![digit_char(0)]);
        "0"
    } else if d == 1 {
        proof {
            reveal_strlit("1");
        }
        assert("1"@ =~= seq![digit_char(1)]);
        "1"
    } else if d == 2 {
        proof {
            reveal_strlit("2");
        }
        assert("2"@ =~= seq![digit_char(2)]);
        "2"
    } else if d == 3 {
        proof {
            reveal_strlit("3");
        }
        assert("3"@ =~= seq![digit_char(3)]);
        "3"
    } else if d == 4 {
        proof {
            reveal_strlit("4");
        }
        assert("4"@ =~= seq![digit_char(4)]);
        "4"
    } else if d == 5 {
        proof {
            reveal_strlit("5");
        }
        assert("5"@ =~= seq![digit_char(5)]);
        "5"
    } else if d == 6 {
        proof {
            reveal_strlit("6");
        }
        assert("6"@ =~= seq![digit_char(6)]);
        "6"
    } else if d == 7 {
        proof {
            reveal_strlit("7");
        }
        assert("7"@ =~= seq![digit_char(7)]);
        "7"
    } else if d == 8 {
        proof {
            reveal_strlit("8");
        }
        assert("8"@ =~= seq![digit_char(8)]);
        "8"
    } else {
        proof {
            reveal_strlit("9");
        }
        assert("9"@ =~= seq![digit_char(9)]);
        "9"
    }
}

/// Renders a `u8` in decimal.
pub fn u8_dec_string(n: u8) -> (r: String)
    ensures
        r@ == dec_str_nat(n as int),
    decreases n,
{
    if n < 10 {
        String::from_str(digit_str(n))
    } else {
        let mut s = u8_dec_string(n / 10);
        s.append(digit_str(n % 10));
        s
    }
}

/// Renders an `i8` in decimal, minus sign included.
pub fn i8_dec_string(n: i8) -> (r: String)
    ensures
        r@ == dec_str_i8(n as int),
{
    if n >= 0 {
        u8_dec_string(n as u8)
    } else {
        let mag: u8 = (-(n as i16)) as u8;
        let mut s = String::from_str("-");
        proof {
            reveal_strlit("-");
            assert("-"@ =~= seq!['-']);
        }
        let digits = u8_dec_string(mag);
        s.append(digits.as_str());
        s
    }
}

/// One command line for the outside process runner: a log label, the
/// program, and its arguments.
pub struct ShellCommand {
    /// The human-readable name the call is logged under.
    pub label: String,
    /// The program to invoke.
    pub program: String,
    /// Its arguments, in order.
    pub args: Vec<String>,
}

/// What the fan-programming command must say to set the two channels to
/// `s0` and `s1` percent: enable manual fan control, then program each fan.
pub open spec fn is_nv_settings_command(c: ShellCommand, s0: int, s1: int) -> bool {
    &&& c.label@ == "nvidia-settings"@
    &&& c.program@ == "sudo"@
    &&& c.args@.len() == 7
    &&& c.args@[0]@ == "nvidia-settings"@
    &&& c.args@[1]@ == "-a"@
    &&& c.args@[2]@ == "*:1[gpu:0]/GPUFanControlState=1"@
    &&& c.args@[3]@ == "-a"@
    &&& c.args@[4]@ == "*:1[fan-0]/GPUTargetFanSpeed="@ + dec_str_i8(s0)
    &&& c.args@[5]@ == "-a"@
    &&& c.args@[6]@ == "*:1[fan-1]/GPUTargetFanSpeed="@ + dec_str_i8(s1)
}

/// The command that programs the two fan channels to the given integer
/// percentages.
pub fn call_nv_settings(fan_speed0: i8, fan_speed1: i8) -> (c: ShellCommand)
    ensures
        is_nv_settings_command(c, fan_speed0 as int, fan_speed1 as int),
{
    let mut args: Vec<String> = Vec::new();
    args.push(String::from_str("nvidia-settings"));
    args.push(String::from_str("-a"));
    args.push(String::from_str("*:1[gpu:0]/GPUFanControlState=1"));
    args.push(String::from_str("-a"));
    let mut a4 = String::from_str("*:1[fan-0]/GPUTargetFanSpeed=");
    let d0 = i8_dec_string(fan_speed0);
    a4.append(d0.as_str());
    args.push(a4);
    args.push(String::from_str("-a"));
    let mut a6 = String::from_str("*:1[fan-1]/GPUTargetFanSpeed=");
    let d1 = i8_dec_string(fan_speed1);
    a6.append(d1.as_str());
    args.push(a6);
    ShellCommand {
        label: String::from_str("nvidia-settings"),
        program: String::from_str("sudo"),
        args,
    }
}

/// The command that returns the device to automatic fan control.
pub fn call_nv_settings_off() -> (c: ShellCommand)
    ensures
        c.label@ == "nvidia-settings"@,
        c.program@ == "sudo"@,
        c.args@.len() == 3,
        c.args@[0]@ == "nvidia-settings"@,
        c.args@[1]@ == "-a"@,
        c.args@[2]@ == "*:1[gpu:0]/GPUFanControlState=0"@,
{
    let mut args: Vec<String> = Vec::new();
    args.push(String::from_str("nvidia-settings"));
    args.push(String::from_str("-a"));
    args.push(String::from_str("*:1[gpu:0]/GPUFanControlState=0"));
    ShellCommand {
        label: String::from_str("nvidia-settings"),
        program: String::from_str("sudo"),
        args,
    }
}

/// The command that grants the elevated user access to the display.
pub fn call_xhost_add() -> (c: ShellCommand)
    ensures
        c.label@ == "xhost add root"@,
        c.program@ == "xhost"@,
        c.args@.len() == 1,
        c.args@[0]@ == "-si:localuser:root"@,
{
    let mut args: Vec<String> = Vec::new();
    args.push(String::from_str("-si:localuser:root"));
    ShellCommand {
        label: String::from_str("xhost add root"),
        program: String::from_str("xhost"),
        args,
    }
}

/// The command that revokes that display access again.
pub fn call_xhost_remove() -> (c: ShellCommand)
    ensures
        c.label@ == "xhost remove root"@,
        c.program@ == "xhost"@,
        c.args@.len() == 1,
        c.args@[0]@ == "-si:localuser:root"@,
{
    let mut args: Vec<String> = Vec::new();
    args.push(String::from_str("-si:localuser:root"));
    ShellCommand {
        label: String::from_str("xhost remove root"),
        program: String::from_str("xhost"),
        args,
    }
}

/// The no-op command that keeps the privileged session alive.
pub fn call_sudo_nop() -> (c: ShellCommand)
    ensures
        c.label@ == "sudo loop"@,
        c.program@ == "sudo"@,
        c.args@.len() == 1,
        c.args@[0]@ == "true"@,
{
    let mut args: Vec<String> = Vec::new();
    args.push(String::from_str("true"));
    ShellCommand {
        label: String::from_str("sudo loop"),
        program: String::from_str("sudo"),
        args,
    }
}

/// Quantizes one fractional duty onto the two channels and assembles the
/// command that programs them.
pub fn set_nv_fans(fan: i64, fan_min: i64) -> (c: ShellCommand)
    requires
        0 <= fan <= MAX_DUTY,
        0 <= fan_min <= MAX_DUTY,
    ensures
        is_nv_settings_command(
            c,
            spec_quantize(fan as int, fan_min as int).0,
            spec_quantize(fan as int, fan_min as int).1,
        ),
{
    let (a, b) = quantize(fan, fan_min);
    call_nv_settings(a as i8, b as i8)
}

} // verus!
