//! Reading channel settings out of a parsed document.

use crate::document::{get, lookup, Node};
use crate::limits::{fits_parser_limits, within_limits};
use crate::yaml::{load_yaml, yaml_documents};
use vstd::prelude::*;

verus! {

/// Top-level key whose value lists the channels.
pub const CHANNEL_LIST_KEY: &'static str = "cDAQ_configurations";

pub const MIN_VOLTAGE_KEY: &'static str = "min_voltage";

pub const MAX_VOLTAGE_KEY: &'static str = "max_voltage";

pub const SAMPLE_RATE_KEY: &'static str = "sample_rate_Hz";

pub const HARDWARE_CHANNELS_KEY: &'static str = "hardware_channels";

/// The four required settings of a channel entry.
#[derive(Debug, Clone, Copy, PartialEq, Eq, Structural)]
pub enum Field {
    MinVoltage,
    MaxVoltage,
    SampleRateHz,
    HardwareChannels,
}

impl Field {
    pub open spec fn spec_key(self) -> Seq<char> {
        match self {
            Field::MinVoltage => MIN_VOLTAGE_KEY@,
            Field::MaxVoltage => MAX_VOLTAGE_KEY@,
            Field::SampleRateHz => SAMPLE_RATE_KEY@,
            Field::HardwareChannels => HARDWARE_CHANNELS_KEY@,
        }
    }

    /// The mapping key under which this setting is written.
    pub fn key(self) -> (r: &'static str)
        ensures
            r@ == self.spec_key(),
    {
        match self {
            Field::MinVoltage => MIN_VOLTAGE_KEY,
            Field::MaxVoltage => MAX_VOLTAGE_KEY,
            Field::SampleRateHz => SAMPLE_RATE_KEY,
            Field::HardwareChannels => HARDWARE_CHANNELS_KEY,
        }
    }
}

/// Why a document does not describe a list of channels.
#[derive(Debug, Clone, Copy, PartialEq, Eq, Structural)]
pub enum ParseError {
    /// The text is not well-formed YAML.
    Syntax,
    /// The first document has no channel-list key (or there is no document).
    MissingChannelList,
    /// The channel-list key holds something other than a sequence.
    ChannelListNotSequence,
    /// Entry `entry` of the channel list lacks `field`.
    MissingField { entry: usize, field: Field },
    /// Entry `entry` holds `field` with a value of the wrong kind.
    WrongFieldKind { entry: usize, field: Field },
    /// More entries than a `u32` count can report.
    TooManyChannels,
    /// The text exceeds the bounds under which it is safe to parse: a line
    /// too long, too many flow collections, or an anchor together with an
    /// alias.
    LimitExceeded,
}

/// One channel's settings.
#[derive(Debug)]
pub struct ChannelConfig {
    pub min_voltage: i64,
    pub max_voltage: i64,
    pub sample_rate_hz: i64,
    pub hardware_channels: String,
}

/// A channel's settings as plain values.
pub ghost struct ChannelView {
    pub min_voltage: i64,
    pub max_voltage: i64,
    pub sample_rate_hz: i64,
    pub hardware_channels: Seq<char>,
}

impl View for ChannelConfig {
    type V = ChannelView;

    open spec fn view(&self) -> ChannelView {
        ChannelView {
            min_voltage: self.min_voltage,
            max_voltage: self.max_voltage,
            sample_rate_hz: self.sample_rate_hz,
            hardware_channels: self.hardware_channels@,
        }
    }
}

pub open spec fn views(cs: Seq<ChannelConfig>) -> Seq<ChannelView> {
    cs.map_values(|c: ChannelConfig| c@)
}

/// The integer setting `field` of entry number `index`.
pub open spec fn integer_field(entry: Node, index: int, field: Field) -> Result<i64, ParseError> {
    match lookup(entry, field.spec_key()) {
        None => Err(ParseError::MissingField { entry: index as usize, field }),
        Some(Node::Integer(v)) => Ok(v),
        Some(_) => Err(ParseError::WrongFieldKind { entry: index as usize, field }),
    }
}

/// The text setting `field` of entry number `index`.
pub open spec fn text_field(entry: Node, index: int, field: Field) -> Result<Seq<char>, ParseError> {
    match lookup(entry, field.spec_key()) {
        None => Err(ParseError::MissingField { entry: index as usize, field }),
        Some(Node::Text(s)) => Ok(s@),
        Some(_) => Err(ParseError::WrongFieldKind { entry: index as usize, field }),
    }
}

/// The channel that entry number `index` describes; the first missing or
/// ill-kinded setting, in field order, is the error.
pub open spec fn channel_of(entry: Node, index: int) -> Result<ChannelView, ParseError> {
    let min = integer_field(entry, index, Field::MinVoltage);
    let max = integer_field(entry, index, Field::MaxVoltage);
    let rate = integer_field(entry, index, Field::SampleRateHz);
    let hw = text_field(entry, index, Field::HardwareChannels);
    if min is Err {
        Err(min->Err_0)
    } else if max is Err {
        Err(max->Err_0)
    } else if rate is Err {
        Err(rate->Err_0)
    } else if hw is Err {
        Err(hw->Err_0)
    } else {
        Ok(
            ChannelView {
                min_voltage: min->Ok_0,
                max_voltage: max->Ok_0,
                sample_rate_hz: rate->Ok_0,
                hardware_channels: hw->Ok_0,
            },
        )
    }
}

/// The channels of `entries` in order, or the error of the first bad entry.
pub open spec fn channels_of(entries: Seq<Node>) -> Result<Seq<ChannelView>, ParseError>
    decreases entries.len(),
{
    if entries.len() == 0 {
        Ok(Seq::empty())
    } else {
        match channels_of(entries.drop_last()) {
            Err(e) => Err(e),
            Ok(cs) => match channel_of(entries.last(), entries.len() - 1) {
                Err(e) => Err(e),
                Ok(c) => Ok(cs.push(c)),
            },
        }
    }
}

/// The entries under the channel-list key of the first document.
pub open spec fn channel_list(docs: Seq<Node>) -> Result<Seq<Node>, ParseError> {
    if docs.len() == 0 {
        Err(ParseError::MissingChannelList)
    } else {
        match lookup(docs[0], CHANNEL_LIST_KEY@) {
            None => Err(ParseError::MissingChannelList),
            Some(Node::List(entries)) => Ok(entries@),
            Some(_) => Err(ParseError::ChannelListNotSequence),
        }
    }
}

/// The channels that parsed documents describe.
pub open spec fn parse_nodes(docs: Seq<Node>) -> Result<Seq<ChannelView>, ParseError> {
    match channel_list(docs) {
        Err(e) => Err(e),
        Ok(entries) => if entries.len() > u32::MAX {
            Err(ParseError::TooManyChannels)
        } else {
            channels_of(entries)
        },
    }
}

/// The channels that a YAML text describes.
pub open spec fn parse_text(text: Seq<char>) -> Result<Seq<ChannelView>, ParseError> {
    if !within_limits(text) {
        Err(ParseError::LimitExceeded)
    } else {
        match yaml_documents(text) {
            None => Err(ParseError::Syntax),
            Some(docs) => parse_nodes(docs),
        }
    }
}

/// Whether an executable parse result is `expected`.
pub open spec fn parsed_as(
    r: Result<Vec<ChannelConfig>, ParseError>,
    expected: Result<Seq<ChannelView>, ParseError>,
) -> bool {
    match r {
        Ok(cs) => expected == Ok::<Seq<ChannelView>, ParseError>(views(cs@)),
        Err(e) => expected == Err::<Seq<ChannelView>, ParseError>(e),
    }
}

/// Reads the integer setting `field` of entry number `index`.
pub fn integer_field_of(entry: &Node, index: usize, field: Field) -> (r: Result<i64, ParseError>)
    ensures
        r == integer_field(*entry, index as int, field),
{
    match get(entry, field.key()) {
        None => Err(ParseError::MissingField { entry: index, field }),
        Some(Node::Integer(v)) => Ok(*v),
        Some(_) => Err(ParseError::WrongFieldKind { entry: index, field }),
    }
}

/// Reads the text setting `field` of entry number `index`.
pub fn text_field_of(entry: &Node, index: usize, field: Field) -> (r: Result<String, ParseError>)
    ensures
        match r {
            Ok(s) => text_field(*entry, index as int, field) == Ok::<Seq<char>, ParseError>(s@),
            Err(e) => text_field(*entry, index as int, field) == Err::<Seq<char>, ParseError>(e),
        },
{
    match get(entry, field.key()) {
        None => Err(ParseError::MissingField { entry: index, field }),
        Some(Node::Text(s)) => Ok(s.clone()),
        Some(_) => Err(ParseError::WrongFieldKind { entry: index, field }),
    }
}

/// Reads the channel that entry number `index` describes.
pub fn channel_from_node(entry: &Node, index: usize) -> (r: Result<ChannelConfig, ParseError>)
    ensures
        match r {
            Ok(c) => channel_of(*entry, index as int) == Ok::<ChannelView, ParseError>(c@),
            Err(e) => channel_of(*entry, index as int) == Err::<ChannelView, ParseError>(e),
        },
{
    let min_voltage = match integer_field_of(entry, index, Field::MinVoltage) {
        Ok(v) => v,
        Err(e) => return Err(e),
    };
    let max_voltage = match integer_field_of(entry, index, Field::MaxVoltage) {
        Ok(v) => v,
        Err(e) => return Err(e),
    };
    let sample_rate_hz = match integer_field_of(entry, index, Field::SampleRateHz) {
        Ok(v) => v,
        Err(e) => return Err(e),
    };
    let hardware_channels = match text_field_of(entry, index, Field::HardwareChannels) {
        Ok(s) => s,
        Err(e) => return Err(e),
    };
    Ok(ChannelConfig { min_voltage, max_voltage, sample_rate_hz, hardware_channels })
}

/// Once a prefix of the entries fails, every longer prefix fails alike.
proof fn lemma_error_persists(entries: Seq<Node>, k: int, n: int, e: ParseError)
    requires
        0 <= k <= n <= entries.len(),
        channels_of(entries.subrange(0, k)) == Err::<Seq<ChannelView>, ParseError>(e),
    ensures
        channels_of(entries.subrange(0, n)) == Err::<Seq<ChannelView>, ParseError>(e),
    decreases n - k,
{
    if n > k {
        lemma_error_persists(entries, k, n - 1, e);
        assert(entries.subrange(0, n).drop_last() =~= entries.subrange(0, n - 1));
    }
}

/// Reads the channels that parsed documents describe.
pub fn parse_documents(docs: &Vec<Node>) -> (r: Result<Vec<ChannelConfig>, ParseError>)
    ensures
        parsed_as(r, parse_nodes(docs@)),
{
    if docs.len() == 0 {
        return Err(ParseError::MissingChannelList);
    }
    let entries = match get(&docs[0], CHANNEL_LIST_KEY) {
        None => return Err(ParseError::MissingChannelList),
        Some(Node::List(entries)) => entries,
        Some(_) => return Err(ParseError::ChannelListNotSequence),
    };
    if entries.len() > u32::MAX as usize {
        return Err(ParseError::TooManyChannels);
    }
    let mut out: Vec<ChannelConfig> = Vec::new();
    let mut i: usize = 0;
    assert(entries@.subrange(0, 0) =~= Seq::<Node>::empty());
    assert(views(out@) =~= Seq::<ChannelView>::empty());
    while i < entries.len()
        invariant
            0 <= i <= entries@.len(),
            channel_list(docs@) == Ok::<Seq<Node>, ParseError>(entries@),
            entries@.len() <= u32::MAX,
            channels_of(entries@.subrange(0, i as int)) == Ok::<Seq<ChannelView>, ParseError>(views(out@)),
        decreases entries.len() - i,
    {
        let ghost prefix = entries@.subrange(0, i as int + 1);
        assert(prefix.drop_last() =~= entries@.subrange(0, i as int));
        assert(prefix.last() == entries@[i as int]);
        match channel_from_node(&entries[i], i) {
            Ok(c) => {
                let ghost before = out@;
                let ghost cv = c@;
                out.push(c);
                assert(views(out@) =~= views(before).push(cv));
            },
            Err(e) => {
                proof {
                    lemma_error_persists(entries@, i + 1, entries@.len() as int, e);
                    assert(entries@.subrange(0, entries@.len() as int) =~= entries@);
                }
                return Err(e);
            },
        }
        i = i + 1;
    }
    assert(entries@.subrange(0, entries@.len() as int) =~= entries@);
    Ok(out)
}

/// Reads the channels that a YAML text describes.
pub fn parse(text: &str) -> (r: Result<Vec<ChannelConfig>, ParseError>)
    ensures
        parsed_as(r, parse_text(text@)),
{
    if !fits_parser_limits(text) {
        return Err(ParseError::LimitExceeded);
    }
    match load_yaml(text) {
        Ok(docs) => parse_documents(&docs),
        Err(_) => Err(ParseError::Syntax),
    }
}

/// A list of entries that reads without error gives one channel per entry,
/// in entry order, and channel `i` holds exactly what entry `i` holds.
pub proof fn lemma_channels_follow_entries(entries: Seq<Node>)
    requires
        channels_of(entries) is Ok,
    ensures
        channels_of(entries)->Ok_0.len() == entries.len(),
        forall|i: int|
            0 <= i < entries.len() ==> channel_of(entries[i], i) == Ok::<ChannelView, ParseError>(
                channels_of(entries)->Ok_0[i],
            ),
    decreases entries.len(),
{
    if entries.len() > 0 {
        let front = entries.drop_last();
        lemma_channels_follow_entries(front);
        assert forall|i: int| 0 <= i < entries.len() - 1 implies entries[i] == front[i] by {}
    }
}

/// A document that reads without error describes exactly as many channels
/// as its channel list has entries, and channel `i` holds exactly the
/// settings of entry `i`.
pub proof fn lemma_document_channels(docs: Seq<Node>)
    requires
        parse_nodes(docs) is Ok,
    ensures
        channel_list(docs) is Ok,
        parse_nodes(docs)->Ok_0.len() == channel_list(docs)->Ok_0.len(),
        parse_nodes(docs)->Ok_0.len() <= u32::MAX,
        forall|i: int|
            0 <= i < channel_list(docs)->Ok_0.len() ==> channel_of(channel_list(docs)->Ok_0[i], i)
                == Ok::<ChannelView, ParseError>(parse_nodes(docs)->Ok_0[i]),
{
    lemma_channels_follow_entries(channel_list(docs)->Ok_0);
}

} // verus!
