//! The configuration store behind a handle, and the operations a host
//! calls on that handle.

use crate::parser::{
    channel_list, channel_of, lemma_document_channels, parse, parse_text, views, ChannelConfig,
    ChannelView, ParseError,
};
use crate::yaml::yaml_documents;
use vstd::prelude::*;

verus! {

/// Why a load produced no store.
#[derive(Debug, Clone, Copy, PartialEq, Eq, Structural)]
pub enum LoadError {
    /// The document could not be read.
    Io,
    /// The document was read but does not describe a list of channels.
    Parse(ParseError),
}

/// Why an accessor returned no value.
#[derive(Debug, Clone, Copy, PartialEq, Eq, Structural)]
pub enum AccessError {
    /// The handle holds no store: its load failed or it was unloaded.
    InvalidHandle,
    /// The index is negative or not below the number of channels.
    Index,
}

/// The channels of one loaded document, in document order.
#[derive(Debug)]
pub struct DaqConfigurations {
    configs: Vec<ChannelConfig>,
}

impl View for DaqConfigurations {
    type V = Seq<ChannelView>;

    closed spec fn view(&self) -> Seq<ChannelView> {
        views(self.configs@)
    }
}

/// The channel at `index` of `cs`, or `Index` where there is none.
pub open spec fn channel_at(cs: Seq<ChannelView>, index: int) -> Result<ChannelView, AccessError> {
    if 0 <= index < cs.len() {
        Ok(cs[index])
    } else {
        Err(AccessError::Index)
    }
}

impl DaqConfigurations {
    /// Every store holds few enough channels for a `u32` count.
    pub open spec fn wf(&self) -> bool {
        self@.len() <= u32::MAX
    }

    /// An empty store.
    pub fn new() -> (r: DaqConfigurations)
        ensures
            r@ == Seq::<ChannelView>::empty(),
            r.wf(),
    {
        let r = DaqConfigurations { configs: Vec::new() };
        assert(r@ =~= Seq::<ChannelView>::empty());
        r
    }

    /// Replaces the channels with those that `contents` describes; on an
    /// error the store is left as it was.
    pub fn load_configuration(&mut self, contents: &str) -> (r: Result<(), ParseError>)
        ensures
            match parse_text(contents@) {
                Ok(cs) => r is Ok && final(self)@ == cs,
                Err(e) => r == Err::<(), ParseError>(e) && final(self)@ == old(self)@,
            },
            old(self).wf() ==> final(self).wf(),
    {
        match parse(contents) {
            Ok(configs) => {
                proof {
                    lemma_document_channels(yaml_documents(contents@)->Some_0);
                }
                self.configs = configs;
                Ok(())
            },
            Err(e) => Err(e),
        }
    }

    /// The number of channels.
    pub fn get_count(&self) -> (r: u32)
        requires
            self.wf(),
        ensures
            r == self@.len(),
    {
        self.configs.len() as u32
    }

    fn get_config(&self, index: i64) -> (r: Result<&ChannelConfig, AccessError>)
        ensures
            match channel_at(self@, index as int) {
                Ok(c) => r is Ok && r->Ok_0@ == c,
                Err(e) => r == Err::<&ChannelConfig, AccessError>(e),
            },
    {
        if index < 0 || index as u64 >= self.configs.len() as u64 {
            Err(AccessError::Index)
        } else {
            Ok(&self.configs[index as usize])
        }
    }

    /// The lowest voltage of channel `index`.
    pub fn get_min(&self, index: i64) -> (r: Result<i64, AccessError>)
        ensures
            match channel_at(self@, index as int) {
                Ok(c) => r == Ok::<i64, AccessError>(c.min_voltage),
                Err(e) => r == Err::<i64, AccessError>(e),
            },
    {
        match self.get_config(index) {
            Ok(c) => Ok(c.min_voltage),
            Err(e) => Err(e),
        }
    }

    /// The highest voltage of channel `index`.
    pub fn get_max(&self, index: i64) -> (r: Result<i64, AccessError>)
        ensures
            match channel_at(self@, index as int) {
                Ok(c) => r == Ok::<i64, AccessError>(c.max_voltage),
                Err(e) => r == Err::<i64, AccessError>(e),
            },
    {
        match self.get_config(index) {
            Ok(c) => Ok(c.max_voltage),
            Err(e) => Err(e),
        }
    }

    /// The sample rate, in hertz, of channel `index`.
    pub fn get_rate(&self, index: i64) -> (r: Result<i64, AccessError>)
        ensures
            match channel_at(self@, index as int) {
                Ok(c) => r == Ok::<i64, AccessError>(c.sample_rate_hz),
                Err(e) => r == Err::<i64, AccessError>(e),
            },
    {
        match self.get_config(index) {
            Ok(c) => Ok(c.sample_rate_hz),
            Err(e) => Err(e),
        }
    }

    /// A copy of the hardware channel specifier of channel `index`.
    pub fn get_hw(&self, index: i64) -> (r: Result<String, AccessError>)
        ensures
            match channel_at(self@, index as int) {
                Ok(c) => r is Ok && r->Ok_0@ == c.hardware_channels,
                Err(e) => r == Err::<String, AccessError>(e),
            },
    {
        match self.get_config(index) {
            Ok(c) => Ok(c.hardware_channels.clone()),
            Err(e) => Err(e),
        }
    }
}

/// A host's handle on a store: `Some` while loaded, `None` for the value a
/// failed load stands for and after an unload.
#[derive(Debug)]
pub struct Handle {
    store: Option<DaqConfigurations>,
}

impl View for Handle {
    type V = Option<Seq<ChannelView>>;

    closed spec fn view(&self) -> Option<Seq<ChannelView>> {
        match self.store {
            Some(s) => Some(s@),
            None => None,
        }
    }
}

impl Handle {
    pub open spec fn wf(&self) -> bool {
        self@ is Some ==> self@->Some_0.len() <= u32::MAX
    }

    /// The handle that stands for a failed load.
    pub fn sentinel() -> (r: Handle)
        ensures
            r@ is None,
            r.wf(),
    {
        Handle { store: None }
    }
}

/// What a load of `contents` gives: `None` means the document could not be read.
pub open spec fn load_result(contents: Option<Seq<char>>) -> Result<Seq<ChannelView>, LoadError> {
    match contents {
        None => Err(LoadError::Io),
        Some(text) => match parse_text(text) {
            Ok(cs) => Ok(cs),
            Err(e) => Err(LoadError::Parse(e)),
        },
    }
}

/// What `get_configuration_count` reports on a handle whose view is `h`.
pub open spec fn count_of(h: Option<Seq<ChannelView>>) -> Result<u32, AccessError> {
    match h {
        None => Err(AccessError::InvalidHandle),
        Some(cs) => Ok(cs.len() as u32),
    }
}

/// The channel that an accessor reads at `index` of a handle whose view is `h`.
pub open spec fn read_at(h: Option<Seq<ChannelView>>, index: int) -> Result<ChannelView, AccessError> {
    match h {
        None => Err(AccessError::InvalidHandle),
        Some(cs) => channel_at(cs, index),
    }
}

/// Loads the document `contents`, `None` where it could not be read, into a
/// new handle.
pub fn load_daq_configurations(contents: Option<&str>) -> (r: Result<Handle, LoadError>)
    ensures
        match r {
            Ok(h) => h.wf() && h@ is Some && load_result(
                match contents {
                    Some(t) => Some(t@),
                    None => None,
                },
            ) == Ok::<Seq<ChannelView>, LoadError>(h@->Some_0),
            Err(e) => load_result(
                match contents {
                    Some(t) => Some(t@),
                    None => None,
                },
            ) == Err::<Seq<ChannelView>, LoadError>(e),
        },
{
    match contents {
        None => Err(LoadError::Io),
        Some(text) => {
            let mut store = DaqConfigurations::new();
            match store.load_configuration(text) {
                Ok(()) => Ok(Handle { store: Some(store) }),
                Err(e) => Err(LoadError::Parse(e)),
            }
        },
    }
}

/// Releases the store of `h`; a handle without one is left as it is.
pub fn unload_daq_configurations(h: &mut Handle)
    ensures
        final(h)@ is None,
        final(h).wf(),
        old(h)@ is None ==> *final(h) == *old(h),
{
    if h.store.is_some() {
        h.store = None;
    }
}

/// The number of channels of `h`.
pub fn get_configuration_count(h: &Handle) -> (r: Result<u32, AccessError>)
    requires
        h.wf(),
    ensures
        r == count_of(h@),
{
    match &h.store {
        Some(s) => Ok(s.get_count()),
        None => Err(AccessError::InvalidHandle),
    }
}

/// The lowest voltage of channel `index` of `h`.
pub fn get_min_voltage(h: &Handle, index: i64) -> (r: Result<i64, AccessError>)
    ensures
        match read_at(h@, index as int) {
            Ok(c) => r == Ok::<i64, AccessError>(c.min_voltage),
            Err(e) => r == Err::<i64, AccessError>(e),
        },
{
    match &h.store {
        Some(s) => s.get_min(index),
        None => Err(AccessError::InvalidHandle),
    }
}

/// The highest voltage of channel `index` of `h`.
pub fn get_max_voltage(h: &Handle, index: i64) -> (r: Result<i64, AccessError>)
    ensures
        match read_at(h@, index as int) {
            Ok(c) => r == Ok::<i64, AccessError>(c.max_voltage),
            Err(e) => r == Err::<i64, AccessError>(e),
        },
{
    match &h.store {
        Some(s) => s.get_max(index),
        None => Err(AccessError::InvalidHandle),
    }
}

/// The sample rate, in hertz, of channel `index` of `h`.
pub fn get_sample_rate_hz(h: &Handle, index: i64) -> (r: Result<i64, AccessError>)
    ensures
        match read_at(h@, index as int) {
            Ok(c) => r == Ok::<i64, AccessError>(c.sample_rate_hz),
            Err(e) => r == Err::<i64, AccessError>(e),
        },
{
    match &h.store {
        Some(s) => s.get_rate(index),
        None => Err(AccessError::InvalidHandle),
    }
}

/// A copy, owned by the caller, of the hardware channel specifier of
/// channel `index` of `h`.
pub fn get_hardware_channels(h: &Handle, index: i64) -> (r: Result<String, AccessError>)
    ensures
        match read_at(h@, index as int) {
            Ok(c) => r is Ok && r->Ok_0@ == c.hardware_channels,
            Err(e) => r == Err::<String, AccessError>(e),
        },
{
    match &h.store {
        Some(s) => s.get_hw(index),
        None => Err(AccessError::InvalidHandle),
    }
}

/// A handle loaded from `text` reports as many channels as the document's
/// channel list has entries, and reading index `i` gives exactly the
/// settings of entry `i`, in document order.
pub proof fn lemma_loaded_handle_reads_entries(text: Seq<char>, h: Handle)
    requires
        h@ is Some,
        load_result(Some(text)) == Ok::<Seq<ChannelView>, LoadError>(h@->Some_0),
    ensures
        yaml_documents(text) is Some,
        channel_list(yaml_documents(text)->Some_0) is Ok,
        count_of(h@) == Ok::<u32, AccessError>(
            channel_list(yaml_documents(text)->Some_0)->Ok_0.len() as u32,
        ),
        channel_list(yaml_documents(text)->Some_0)->Ok_0.len() <= u32::MAX,
        forall|i: int|
            #![trigger read_at(h@, i)]
            0 <= i < channel_list(yaml_documents(text)->Some_0)->Ok_0.len() ==> read_at(h@, i) is Ok
                && channel_of(channel_list(yaml_documents(text)->Some_0)->Ok_0[i], i) == Ok::<
                ChannelView,
                ParseError,
            >(read_at(h@, i)->Ok_0),
{
    lemma_document_channels(yaml_documents(text)->Some_0);
}

/// On a loaded handle, an index that is negative or not below the count
/// reads nothing and reports `Index`.
pub proof fn lemma_index_out_of_range(h: Handle, index: int)
    requires
        h@ is Some,
        index < 0 || index >= h@->Some_0.len(),
    ensures
        read_at(h@, index) == Err::<ChannelView, AccessError>(AccessError::Index),
{
}

/// A handle without a store, after an unload or a failed load, answers
/// every accessor with `InvalidHandle`.
pub proof fn lemma_released_handle_rejects(h: Handle)
    requires
        h@ is None,
    ensures
        count_of(h@) == Err::<u32, AccessError>(AccessError::InvalidHandle),
        forall|i: int| read_at(h@, i) == Err::<ChannelView, AccessError>(AccessError::InvalidHandle),
{
}

/// Two loads of the same unchanged document give handles that read alike
/// at every index, and report the same count.
pub proof fn lemma_load_repeatable(contents: Option<Seq<char>>, a: Handle, b: Handle)
    requires
        a@ is Some,
        b@ is Some,
        load_result(contents) == Ok::<Seq<ChannelView>, LoadError>(a@->Some_0),
        load_result(contents) == Ok::<Seq<ChannelView>, LoadError>(b@->Some_0),
    ensures
        a@ == b@,
        count_of(a@) == count_of(b@),
        forall|i: int| read_at(a@, i) == read_at(b@, i),
{
}

} // verus!
