//! The vocabulary shared by every sink: topology, errors, channel records.

use vstd::prelude::*;
use vstd::string::*;

verus! {

/// How the requested channels map to port identities.
#[derive(Clone, Copy, Debug, PartialEq, Eq, Structural)]
pub enum SinkType {
    /// Each channel has an input port and an output port of its own.
    OneToOne,
    /// All channels share one output; no mapping is defined for it yet.
    AllToOne,
}

/// A failure of the control plane.
#[derive(Clone, Copy, Debug, PartialEq, Eq, Structural)]
pub enum ConfigurationError {
    /// The requested topology has no port mapping.
    UnsupportedTopology,
    /// The host refused to register the ports of a channel.
    PortRegistrationFailed,
}

impl SinkType {
    /// Whether a port mapping is defined for this topology.
    pub open spec fn supported(self) -> bool {
        self == SinkType::OneToOne
    }

    /// Tests the topology for a defined port mapping.
    pub fn check(self) -> (outcome: Result<(), ConfigurationError>)
        ensures
            self.supported() ==> outcome == Ok::<(), ConfigurationError>(()),
            !self.supported() ==> outcome == Err::<(), ConfigurationError>(
                ConfigurationError::UnsupportedTopology,
            ),
    {
        match self {
            SinkType::OneToOne => Ok(()),
            SinkType::AllToOne => Err(ConfigurationError::UnsupportedTopology),
        }
    }
}

/// A sink of audio channels that can be set up for a number of channels.
///
/// The trait is for sinks of any kind, also such as talk to a host, so it
/// promises nothing by itself; each implementation states what it does.
pub trait AudioSink {
    /// Discards the channels held so far and establishes
    /// `number_of_channels` new ones.
    fn init(&mut self, number_of_channels: usize) -> Result<(), ConfigurationError>;
}

/// What the name of every input port begins with.
pub const INPUT_PORT_NAME_BASE: &'static str = "input_port_";

/// What the name of every output port begins with.
pub const OUTPUT_PORT_NAME_BASE: &'static str = "output_port_";

/// The character of a decimal digit.
pub open spec fn digit(d: nat) -> char {
    if d == 0 {
        '0'
    } else if d == 1 {
        '1'
    } else if d == 2 {
        '2'
    } else if d == 3 {
        '3'
    } else if d == 4 {
        '4'
    } else if d == 5 {
        '5'
    } else if d == 6 {
        '6'
    } else if d == 7 {
        '7'
    } else if d == 8 {
        '8'
    } else {
        '9'
    }
}

/// The decimal numeral of a number, without leading zeros.
pub open spec fn decimal(n: nat) -> Seq<char>
    decreases n,
{
    if n < 10 {
        seq![digit(n)]
    } else {
        decimal(n / 10).push(digit(n % 10))
    }
}

/// The name of the input port of a channel.
pub open spec fn input_name(id: nat) -> Seq<char> {
    INPUT_PORT_NAME_BASE@ + decimal(id)
}

/// The name of the output port of a channel.
pub open spec fn output_name(id: nat) -> Seq<char> {
    OUTPUT_PORT_NAME_BASE@ + decimal(id)
}

/// The text of one decimal digit.
fn digit_text(d: usize) -> (text: &'static str)
    requires
        d < 10,
    ensures
        text@ == seq![digit(d as nat)],
{
    proof {
        reveal_strlit("0");
        reveal_strlit("1");
        reveal_strlit("2");
        reveal_strlit("3");
        reveal_strlit("4");
        reveal_strlit("5");
        reveal_strlit("6");
        reveal_strlit("7");
        reveal_strlit("8");
        reveal_strlit("9");
    }
    let text = match d {
        0 => "0",
        1 => "1",
        2 => "2",
        3 => "3",
        4 => "4",
        5 => "5",
        6 => "6",
        7 => "7",
        8 => "8",
        _ => "9",
    };
    assert(text@ =~= seq![digit(d as nat)]);
    text
}

/// Appends the decimal numeral of `n` to `text`.
pub fn push_decimal(text: &mut String, n: usize)
    ensures
        final(text)@ == old(text)@ + decimal(n as nat),
    decreases n,
{
    if n >= 10 {
        push_decimal(text, n / 10);
    }
    text.append(digit_text(n % 10));
    assert(text@ =~= old(text)@ + decimal(n as nat));
}

/// The name under which the input port of channel `number` is registered.
pub fn input_port_name(number: usize) -> (name: String)
    ensures
        name@ == input_name(number as nat),
{
    let mut name = String::from_str(INPUT_PORT_NAME_BASE);
    push_decimal(&mut name, number);
    name
}

/// The name under which the output port of channel `number` is registered.
pub fn output_port_name(number: usize) -> (name: String)
    ensures
        name@ == output_name(number as nat),
{
    let mut name = String::from_str(OUTPUT_PORT_NAME_BASE);
    push_decimal(&mut name, number);
    name
}

/// What matches the names of all ports of a client.
pub open spec fn port_pattern(client_name: Seq<char>) -> Seq<char> {
    client_name + ":.*"@
}

/// The pattern that matches the full name of every port of the client
/// `client_name`.
pub fn port_name_regex(client_name: &str) -> (pattern: String)
    ensures
        pattern@ == port_pattern(client_name@),
{
    let mut pattern = String::from_str(client_name);
    pattern.append(":.*");
    pattern
}

/// Who a channel is: its number and the names of its two ports.
pub struct ChannelIdentity {
    pub id: nat,
    pub input_name: Seq<char>,
    pub output_name: Seq<char>,
}

/// The identity of the channel with a given number.
pub open spec fn channel_identity(id: nat) -> ChannelIdentity {
    ChannelIdentity { id, input_name: input_name(id), output_name: output_name(id) }
}

/// What a channel record holds: an identity and, while the record owns it,
/// the resource that the host granted.
pub struct ChannelRecord<R> {
    pub identity: ChannelIdentity,
    pub channel: Option<R>,
}

/// The record of a channel without a resource.
pub open spec fn unbound_record<R>(id: nat) -> ChannelRecord<R> {
    ChannelRecord { identity: channel_identity(id), channel: None }
}

/// The record of one channel. `R` is the resource that the host grants for
/// it; the library never looks inside.
#[derive(Debug)]
pub struct PortInfo<R> {
    pub number: usize,
    pub input_port_name: String,
    pub output_port_name: String,
    pub channel: Option<R>,
}

impl<R> View for PortInfo<R> {
    type V = ChannelRecord<R>;

    open spec fn view(&self) -> ChannelRecord<R> {
        ChannelRecord {
            identity: ChannelIdentity {
                id: self.number as nat,
                input_name: self.input_port_name@,
                output_name: self.output_port_name@,
            },
            channel: self.channel,
        }
    }
}

impl<R> PortInfo<R> {
    /// The record of channel `number`, with its derived names and no
    /// resource.
    pub fn new(number: usize) -> (info: Self)
        ensures
            info@ == unbound_record::<R>(number as nat),
    {
        PortInfo {
            number,
            input_port_name: input_port_name(number),
            output_port_name: output_port_name(number),
            channel: None,
        }
    }
}

/// Two records are equal when their numbers are: the names follow from the
/// number, and the resource is no part of who a channel is.
impl<R> PartialEq for PortInfo<R> {
    fn eq(&self, other: &Self) -> (same: bool) {
        self.number == other.number
    }
}

impl<R> vstd::std_specs::cmp::PartialEqSpecImpl for PortInfo<R> {
    open spec fn obeys_eq_spec() -> bool {
        true
    }

    open spec fn eq_spec(&self, other: &Self) -> bool {
        self.number == other.number
    }
}

/// `Hash::hash` of `usize`: feeds the number to the hasher. Nothing is
/// claimed of what the hasher then holds.
pub assume_specification<H: core::hash::Hasher>[ <usize as core::hash::Hash>::hash::<H> ](
    key: &usize,
    hasher: &mut H,
);

/// A record is hashed by its number alone, as it is compared.
impl<R> core::hash::Hash for PortInfo<R> {
    fn hash<H: core::hash::Hasher>(&self, state: &mut H) {
        self.number.hash(state);
    }
}

} // verus!
