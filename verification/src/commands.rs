//! What the command line arguments decide: the serial settings read from
//! their text values, the text formats chosen by flags, and the text sent.

use vstd::prelude::*;
use crate::chars::push_chars;
use crate::parser::string_util::str_eq;
use crate::serial::settings::{
    DataBits, FlowControl, Parity, Settings, StopBits,
};
use crate::stdlib::{parse_u32, parse_u64, radix_parse, string_push};
use crate::utils::{TextFormat, escape_text, escaped_text};

verus! {

/// The number of data bits that a value names (`5` to `8`).
pub open spec fn data_bits_value(s: Seq<char>) -> Option<DataBits> {
    if s == "5"@ {
        Some(DataBits::Five)
    } else if s == "6"@ {
        Some(DataBits::Six)
    } else if s == "7"@ {
        Some(DataBits::Seven)
    } else if s == "8"@ {
        Some(DataBits::Eight)
    } else {
        None
    }
}

/// The parity mode that a value names (`none`, `even`, `odd`).
pub open spec fn parity_value(s: Seq<char>) -> Option<Parity> {
    if s == "none"@ {
        Some(Parity::NoParity)
    } else if s == "even"@ {
        Some(Parity::Even)
    } else if s == "odd"@ {
        Some(Parity::Odd)
    } else {
        None
    }
}

/// The number of stop bits that a value names (`1`, `2`).
pub open spec fn stop_bits_value(s: Seq<char>) -> Option<StopBits> {
    if s == "1"@ {
        Some(StopBits::One)
    } else if s == "2"@ {
        Some(StopBits::Two)
    } else {
        None
    }
}

/// The flow control mode that a value names (`none`, `software`, `hardware`).
pub open spec fn flow_control_value(s: Seq<char>) -> Option<FlowControl> {
    if s == "none"@ {
        Some(FlowControl::NoFlowControl)
    } else if s == "software"@ {
        Some(FlowControl::Software)
    } else if s == "hardware"@ {
        Some(FlowControl::Hardware)
    } else {
        None
    }
}

/// The message for an invalid value: the description, the value in single
/// quotes (the closing quote left out after stop bits, as the tool prints it).
pub open spec fn invalid_message(what: Seq<char>, value: Seq<char>, close: bool) -> Seq<char> {
    "Invalid "@ + what + " '"@ + value + if close {
        "'"@
    } else {
        Seq::empty()
    }
}

/// The settings that the argument values give, checked in order: baud rate
/// (a decimal `u32`), timeout (a decimal `u64`), data bits, parity, stop bits
/// and flow control; the first invalid value gives its message.
pub open spec fn serial_settings(
    baud_rate: Seq<char>,
    timeout: Seq<char>,
    data_bits: Seq<char>,
    parity: Seq<char>,
    stop_bits: Seq<char>,
    flow_control: Seq<char>,
) -> Result<Settings, Seq<char>> {
    let baud = radix_parse(baud_rate, 10);
    let time = radix_parse(timeout, 10);
    if !(baud matches Some(b) && b <= u32::MAX) {
        Err(invalid_message("baud rate"@, baud_rate, true))
    } else if !(time matches Some(t) && t <= u64::MAX) {
        Err(invalid_message("timeout"@, timeout, true))
    } else if data_bits_value(data_bits) is None {
        Err(invalid_message("data bits"@, data_bits, true))
    } else if parity_value(parity) is None {
        Err(invalid_message("parity"@, parity, true))
    } else if stop_bits_value(stop_bits) is None {
        Err(invalid_message("stop bits"@, stop_bits, false))
    } else if flow_control_value(flow_control) is None {
        Err(invalid_message("flow control"@, flow_control, true))
    } else {
        Ok(
            Settings {
                baud_rate: baud->0 as u32,
                timeout: time->0 as u64,
                data_bits: data_bits_value(data_bits)->0,
                parity: parity_value(parity)->0,
                stop_bits: stop_bits_value(stop_bits)->0,
                flow_control: flow_control_value(flow_control)->0,
            },
        )
    }
}

/// Each accepted argument value names its own setting: the data bits `5` to
/// `8` five to eight bits, the parity `none`, `even`, `odd` no, even and odd
/// parity, the stop bits `1`, `2` one and two, the flow control `none`,
/// `software`, `hardware` none, software and hardware; the baud rate and
/// timeout are the decimal numbers given. Settings are read exactly when
/// every value is one of these.
pub proof fn lemma_settings_name_their_values(
    baud_rate: Seq<char>,
    timeout: Seq<char>,
    data_bits: Seq<char>,
    parity: Seq<char>,
    stop_bits: Seq<char>,
    flow_control: Seq<char>,
)
    ensures
        serial_settings(baud_rate, timeout, data_bits, parity, stop_bits, flow_control) matches Ok(
            st,
        ) ==> {
            &&& st.baud_rate as nat == radix_parse(baud_rate, 10)->0
            &&& st.timeout as nat == radix_parse(timeout, 10)->0
            &&& (st.data_bits == DataBits::Five <==> data_bits == "5"@)
            &&& (st.data_bits == DataBits::Six <==> data_bits == "6"@)
            &&& (st.data_bits == DataBits::Seven <==> data_bits == "7"@)
            &&& (st.data_bits == DataBits::Eight <==> data_bits == "8"@)
            &&& (st.parity == Parity::NoParity <==> parity == "none"@)
            &&& (st.parity == Parity::Even <==> parity == "even"@)
            &&& (st.parity == Parity::Odd <==> parity == "odd"@)
            &&& (st.stop_bits == StopBits::One <==> stop_bits == "1"@)
            &&& (st.stop_bits == StopBits::Two <==> stop_bits == "2"@)
            &&& (st.flow_control == FlowControl::NoFlowControl <==> flow_control == "none"@)
            &&& (st.flow_control == FlowControl::Software <==> flow_control == "software"@)
            &&& (st.flow_control == FlowControl::Hardware <==> flow_control == "hardware"@)
        },
        (radix_parse(baud_rate, 10) matches Some(b) && b <= u32::MAX) && (radix_parse(
            timeout,
            10,
        ) matches Some(t) && t <= u64::MAX) && (data_bits == "5"@ || data_bits == "6"@
            || data_bits == "7"@ || data_bits == "8"@) && (parity == "none"@ || parity == "even"@
            || parity == "odd"@) && (stop_bits == "1"@ || stop_bits == "2"@) && (flow_control
            == "none"@ || flow_control == "software"@ || flow_control == "hardware"@)
            ==> serial_settings(
            baud_rate,
            timeout,
            data_bits,
            parity,
            stop_bits,
            flow_control,
        ) is Ok,
{
    reveal_strlit("5");
    reveal_strlit("6");
    reveal_strlit("7");
    reveal_strlit("8");
    reveal_strlit("1");
    reveal_strlit("2");
    reveal_strlit("none");
    reveal_strlit("even");
    reveal_strlit("odd");
    reveal_strlit("software");
    reveal_strlit("hardware");
    assert("none"@.len() == 4 && "even"@.len() == 4 && "odd"@.len() == 3);
    assert("none"@[0] != "even"@[0]);
    assert("software"@.len() == 8 && "hardware"@.len() == 8);
    assert("software"@[0] != "hardware"@[0]);
    assert("5"@[0] != "6"@[0] && "5"@[0] != "7"@[0] && "5"@[0] != "8"@[0]);
    assert("6"@[0] != "7"@[0] && "6"@[0] != "8"@[0] && "7"@[0] != "8"@[0]);
    assert("1"@[0] != "2"@[0]);
}

fn invalid(what: &str, value: &str, close: bool) -> (r: String)
    ensures
        r@ == invalid_message(what@, value@, close),
{
    let mut r = String::new();
    push_chars(&mut r, "Invalid ");
    push_chars(&mut r, what);
    push_chars(&mut r, " '");
    push_chars(&mut r, value);
    if close {
        push_chars(&mut r, "'");
    }
    proof {
        reveal_strlit("Invalid ");
        reveal_strlit(" '");
        reveal_strlit("'");
    }
    assert(r@ =~= invalid_message(what@, value@, close));
    r
}

/// Read serial settings from the text values of the command line arguments.
pub fn get_serial_settings(
    baud_rate: &str,
    timeout: &str,
    data_bits: &str,
    parity: &str,
    stop_bits: &str,
    flow_control: &str,
) -> (res: Result<Settings, String>)
    ensures
        match serial_settings(baud_rate@, timeout@, data_bits@, parity@, stop_bits@, flow_control@) {
            Ok(s) => res == Ok::<Settings, String>(s),
            Err(m) => res matches Err(e) && e@ == m,
        },
{
    proof {
        reveal_strlit("5");
        reveal_strlit("6");
        reveal_strlit("7");
        reveal_strlit("8");
        reveal_strlit("1");
        reveal_strlit("2");
        reveal_strlit("none");
        reveal_strlit("even");
        reveal_strlit("odd");
        reveal_strlit("software");
        reveal_strlit("hardware");
    }
    let mut settings = Settings::default();
    match parse_u32(baud_rate) {
        Some(rate) => settings.baud_rate = rate,
        None => return Err(invalid("baud rate", baud_rate, true)),
    }
    match parse_u64(timeout) {
        Some(duration) => settings.timeout = duration,
        None => return Err(invalid("timeout", timeout, true)),
    }
    settings.data_bits = if str_eq(data_bits, "5") {
        DataBits::Five
    } else if str_eq(data_bits, "6") {
        DataBits::Six
    } else if str_eq(data_bits, "7") {
        DataBits::Seven
    } else if str_eq(data_bits, "8") {
        DataBits::Eight
    } else {
        return Err(invalid("data bits", data_bits, true));
    };
    settings.parity = if str_eq(parity, "none") {
        Parity::NoParity
    } else if str_eq(parity, "even") {
        Parity::Even
    } else if str_eq(parity, "odd") {
        Parity::Odd
    } else {
        return Err(invalid("parity", parity, true));
    };
    settings.stop_bits = if str_eq(stop_bits, "1") {
        StopBits::One
    } else if str_eq(stop_bits, "2") {
        StopBits::Two
    } else {
        return Err(invalid("stop bits", stop_bits, false));
    };
    settings.flow_control = if str_eq(flow_control, "none") {
        FlowControl::NoFlowControl
    } else if str_eq(flow_control, "software") {
        FlowControl::Software
    } else if str_eq(flow_control, "hardware") {
        FlowControl::Hardware
    } else {
        return Err(invalid("flow control", flow_control, true));
    };
    Ok(settings)
}

/// The format that flags select: the first set of binary, octal, decimal and
/// hexadecimal, else `fallback`.
pub open spec fn flag_format(
    binary: bool,
    octal: bool,
    decimal: bool,
    hex: bool,
    fallback: TextFormat,
) -> TextFormat {
    if binary {
        TextFormat::Binary
    } else if octal {
        TextFormat::Octal
    } else if decimal {
        TextFormat::Decimal
    } else if hex {
        TextFormat::Hex
    } else {
        fallback
    }
}

/// The text format selected by the flags binary, octal, decimal and hex, in
/// that order of precedence; with none set, `fallback` (plain text for the
/// general flags, the general format for the input and output flags).
pub fn get_text_format(
    binary: bool,
    octal: bool,
    decimal: bool,
    hex: bool,
    fallback: TextFormat,
) -> (r: TextFormat)
    ensures
        r == flag_format(binary, octal, decimal, hex, fallback),
{
    if binary {
        TextFormat::Binary
    } else if octal {
        TextFormat::Octal
    } else if decimal {
        TextFormat::Decimal
    } else if hex {
        TextFormat::Hex
    } else {
        fallback
    }
}

/// The text that is sent: a line feed appended if asked, then a carriage
/// return if asked, then escape sequences resolved if asked.
pub open spec fn sent_text(text: Seq<char>, newline: bool, carriage_return: bool, escape: bool) -> Seq<
    char,
> {
    let a = if newline {
        text.push('\n')
    } else {
        text
    };
    let b = if carriage_return {
        a.push('\r')
    } else {
        a
    };
    if escape {
        escaped_text(b)
    } else {
        b
    }
}

/// Prepare the text given on the command line for sending.
pub fn prepare_text(text: String, newline: bool, carriage_return: bool, escape: bool) -> (r: String)
    ensures
        r@ == sent_text(text@, newline, carriage_return, escape),
{
    let mut text = text;
    if newline {
        string_push(&mut text, '\n');
    }
    if carriage_return {
        string_push(&mut text, '\r');
    }
    if escape {
        text = escape_text(text);
    }
    text
}

} // verus!
