//! Line parameters for opening a port, with the permissive fallback
//! policy: an out-of-range or unrecognised option silently falls back
//! to its documented default instead of failing.

use vstd::prelude::*;

verus! {

/// Number of data bits per character frame.
#[derive(Clone, Copy, Debug, PartialEq, Eq, Structural)]
pub enum DataBits {
    Five,
    Six,
    Seven,
    Eight,
}

/// Flow control mode of the line.
#[derive(Clone, Copy, Debug, PartialEq, Eq, Structural)]
pub enum FlowControl {
    NoFlowControl,
    Software,
    Hardware,
}

/// Parity checking mode of the line.
#[derive(Clone, Copy, Debug, PartialEq, Eq, Structural)]
pub enum Parity {
    NoParity,
    Odd,
    Even,
}

/// Number of stop bits per character frame.
#[derive(Clone, Copy, Debug, PartialEq, Eq, Structural)]
pub enum StopBits {
    One,
    Two,
}

/// The data-bits value a caller's raw input resolves to: 5 through 8
/// select the matching width, anything else falls back to eight.
pub open spec fn data_bits_of(value: Option<usize>) -> DataBits {
    match value {
        Option::Some(v) => if v == 5 {
            DataBits::Five
        } else if v == 6 {
            DataBits::Six
        } else if v == 7 {
            DataBits::Seven
        } else {
            DataBits::Eight
        },
        Option::None => DataBits::Eight,
    }
}

/// The flow-control mode a caller's raw input resolves to: the exact
/// strings "Software" and "Hardware" select those modes, anything else
/// falls back to no flow control.
pub open spec fn flow_control_of(value: Option<Seq<char>>) -> FlowControl {
    match value {
        Option::Some(s) => if s == "Software"@ {
            FlowControl::Software
        } else if s == "Hardware"@ {
            FlowControl::Hardware
        } else {
            FlowControl::NoFlowControl
        },
        Option::None => FlowControl::NoFlowControl,
    }
}

/// The parity mode a caller's raw input resolves to: the exact strings
/// "Odd" and "Even" select those modes, anything else falls back to no
/// parity.
pub open spec fn parity_of(value: Option<Seq<char>>) -> Parity {
    match value {
        Option::Some(s) => if s == "Odd"@ {
            Parity::Odd
        } else if s == "Even"@ {
            Parity::Even
        } else {
            Parity::NoParity
        },
        Option::None => Parity::NoParity,
    }
}

/// The stop-bits value a caller's raw input resolves to: 1 and 2 select
/// the matching count, anything else falls back to two.
pub open spec fn stop_bits_of(value: Option<usize>) -> StopBits {
    match value {
        Option::Some(v) => if v == 1 {
            StopBits::One
        } else {
            StopBits::Two
        },
        Option::None => StopBits::Two,
    }
}

/// Resolves a raw data-bits option to its `DataBits` value.
pub fn get_data_bits(value: Option<usize>) -> (r: DataBits)
    ensures
        r == data_bits_of(value),
{
    match value {
        Some(5) => DataBits::Five,
        Some(6) => DataBits::Six,
        Some(7) => DataBits::Seven,
        Some(8) => DataBits::Eight,
        Some(_) => DataBits::Eight,
        None => DataBits::Eight,
    }
}

/// Resolves a raw flow-control option to its `FlowControl` value.
pub fn get_flow_control(value: Option<String>) -> (r: FlowControl)
    ensures
        r == flow_control_of(match value {
            Option::Some(s) => Option::Some(s@),
            Option::None => Option::None,
        }),
{
    match value {
        Some(s) => {
            let software: String = "Software".to_owned();
            let hardware: String = "Hardware".to_owned();
            if s == software {
                FlowControl::Software
            } else if s == hardware {
                FlowControl::Hardware
            } else {
                FlowControl::NoFlowControl
            }
        },
        None => FlowControl::NoFlowControl,
    }
}

/// Resolves a raw parity option to its `Parity` value.
pub fn get_parity(value: Option<String>) -> (r: Parity)
    ensures
        r == parity_of(match value {
            Option::Some(s) => Option::Some(s@),
            Option::None => Option::None,
        }),
{
    match value {
        Some(s) => {
            let odd: String = "Odd".to_owned();
            let even: String = "Even".to_owned();
            if s == odd {
                Parity::Odd
            } else if s == even {
                Parity::Even
            } else {
                Parity::NoParity
            }
        },
        None => Parity::NoParity,
    }
}

/// Resolves a raw stop-bits option to its `StopBits` value.
pub fn get_stop_bits(value: Option<usize>) -> (r: StopBits)
    ensures
        r == stop_bits_of(value),
{
    match value {
        Some(1) => StopBits::One,
        Some(2) => StopBits::Two,
        Some(_) => StopBits::Two,
        None => StopBits::Two,
    }
}

/// Fully resolved line parameters for one `open` call.
#[derive(Clone, Copy, Debug, PartialEq, Eq, Structural)]
pub struct PortConfig {
    pub baud_rate: u32,
    pub data_bits: DataBits,
    pub flow_control: FlowControl,
    pub parity: Parity,
    pub stop_bits: StopBits,
    pub timeout_ms: u64,
}

/// Resolves every raw option of an `open` call at once, applying the
/// documented fallback for each and the 200 ms default timeout.
pub fn resolve_config(
    baud_rate: u32,
    data_bits: Option<usize>,
    flow_control: Option<String>,
    parity: Option<String>,
    stop_bits: Option<usize>,
    timeout_ms: Option<u64>,
) -> (r: PortConfig)
    ensures
        r.baud_rate == baud_rate,
        r.data_bits == data_bits_of(data_bits),
        r.flow_control == flow_control_of(match flow_control {
            Option::Some(s) => Option::Some(s@),
            Option::None => Option::None,
        }),
        r.parity == parity_of(match parity {
            Option::Some(s) => Option::Some(s@),
            Option::None => Option::None,
        }),
        r.stop_bits == stop_bits_of(stop_bits),
        r.timeout_ms == match timeout_ms {
            Option::Some(t) => t,
            Option::None => 200u64,
        },
{
    let timeout: u64 = match timeout_ms {
        Some(t) => t,
        None => 200,
    };
    PortConfig {
        baud_rate,
        data_bits: get_data_bits(data_bits),
        flow_control: get_flow_control(flow_control),
        parity: get_parity(parity),
        stop_bits: get_stop_bits(stop_bits),
        timeout_ms: timeout,
    }
}

} // verus!
