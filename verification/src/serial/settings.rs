//! Settings of a serial port connection.

use vstd::prelude::*;
use crate::stdlib::string_push;
use crate::utils::{min_digits, push_decimal};

verus! {

/// Number of bits for each data character.
#[derive(PartialEq, Eq, Structural, Clone, Copy, Debug)]
pub enum DataBits {
    /// 5 bits per character.
    Five,
    /// 6 bits per character.
    Six,
    /// 7 bits per character. Used for true ASCII.
    Seven,
    /// 8 bits per character. This is default in most cases.
    Eight,
}

/// Data parity check modes.
#[derive(PartialEq, Eq, Structural, Clone, Copy, Debug)]
pub enum Parity {
    /// No parity bit used.
    NoParity,
    /// Parity bit sets for even number of 1 bits.
    Even,
    /// Parity bit sets for odd number of 1 bits.
    Odd,
}

/// Number of stop bits.
#[derive(PartialEq, Eq, Structural, Clone, Copy, Debug)]
pub enum StopBits {
    /// One stop bit.
    One,
    /// Two stop bits.
    Two,
}

/// Flow control modes.
#[derive(PartialEq, Eq, Structural, Clone, Copy, Debug)]
pub enum FlowControl {
    /// No flow control.
    NoFlowControl,
    /// Flow control using ASCII XON/XOFF bytes.
    Software,
    /// Flow control using RTS/CTS or DTR/DSR signals.
    Hardware,
}

/// Settings of a serial port connection.
#[derive(PartialEq, Eq, Structural, Clone, Copy, Debug)]
pub struct Settings {
    /// Baud rate in bits per second.
    pub baud_rate: u32,
    /// Timeout duration in milliseconds.
    pub timeout: u64,
    /// Number of data bits.
    pub data_bits: DataBits,
    /// Parity bit mode.
    pub parity: Parity,
    /// Number of stop bits.
    pub stop_bits: StopBits,
    /// Flow control mode.
    pub flow_control: FlowControl,
}

/// The default settings: 9600 baud, a timeout of 1000 ms, eight data bits,
/// no parity, one stop bit and no flow control.
pub open spec fn default_settings() -> Settings {
    Settings {
        baud_rate: 9600,
        timeout: 1000,
        data_bits: DataBits::Eight,
        parity: Parity::NoParity,
        stop_bits: StopBits::One,
        flow_control: FlowControl::NoFlowControl,
    }
}

impl Default for Settings {
    fn default() -> (s: Settings)
        ensures
            s == default_settings(),
    {
        Settings {
            baud_rate: 9600,
            timeout: 1000,
            data_bits: DataBits::Eight,
            parity: Parity::NoParity,
            stop_bits: StopBits::One,
            flow_control: FlowControl::NoFlowControl,
        }
    }
}

/// The digit that stands for a number of data bits.
pub open spec fn data_bits_char(d: DataBits) -> char {
    match d {
        DataBits::Five => '5',
        DataBits::Six => '6',
        DataBits::Seven => '7',
        DataBits::Eight => '8',
    }
}

/// The letter that stands for a parity mode.
pub open spec fn parity_char(p: Parity) -> char {
    match p {
        Parity::NoParity => 'N',
        Parity::Even => 'E',
        Parity::Odd => 'O',
    }
}

/// The digit that stands for a number of stop bits.
pub open spec fn stop_bits_char(s: StopBits) -> char {
    match s {
        StopBits::One => '1',
        StopBits::Two => '2',
    }
}

/// The short form of settings, such as `9600 8N1`: the baud rate, a space,
/// then data bits, parity and stop bits.
pub open spec fn short_string(s: Settings) -> Seq<char> {
    min_digits(s.baud_rate as nat, 10) + seq![
        ' ',
        data_bits_char(s.data_bits),
        parity_char(s.parity),
        stop_bits_char(s.stop_bits),
    ]
}

impl Settings {
    /// The short form of the settings, such as `9600 8N1`.
    pub fn to_short_string(&self) -> (r: String)
        ensures
            r@ == short_string(*self),
    {
        let data_bits = match self.data_bits {
            DataBits::Five => '5',
            DataBits::Six => '6',
            DataBits::Seven => '7',
            DataBits::Eight => '8',
        };
        let parity = match self.parity {
            Parity::NoParity => 'N',
            Parity::Even => 'E',
            Parity::Odd => 'O',
        };
        let stop_bits = match self.stop_bits {
            StopBits::One => '1',
            StopBits::Two => '2',
        };
        let mut r = String::new();
        push_decimal(&mut r, self.baud_rate);
        string_push(&mut r, ' ');
        string_push(&mut r, data_bits);
        string_push(&mut r, parity);
        string_push(&mut r, stop_bits);
        assert(r@ =~= short_string(*self));
        r
    }
}

} // verus!
