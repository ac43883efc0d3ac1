//! Channel configuration: turns the message layer's ordered channel list
//! into the channel configurations that the transport opens.
//!
//! Channel identity is positional on both sides, so the result keeps length
//! and order. A channel id travels as one byte, which bounds the length of a
//! list.

use bevy_quinnet::shared::channels::SendChannelsConfiguration;
use bevy_replicon::shared::backend::channels::RepliconChannels;
use vstd::prelude::*;

verus! {

/// The largest number of channels that one list may declare.
pub const MAX_CHANNELS: usize = 255;

/// Delivery guarantee that the message layer asks of a channel.
#[derive(Clone, Copy, Debug, PartialEq, Eq, Structural)]
pub enum Channel {
    /// Unreliable and unordered.
    Unreliable,
    /// Reliable and unordered.
    Unordered,
    /// Reliable and ordered.
    Ordered,
}

/// What the transport is asked to open for one channel.
#[derive(Clone, Copy, Debug, PartialEq, Eq, Structural)]
pub enum ChannelConfig {
    /// Datagrams that may be lost or arrive out of order.
    Unreliable,
    /// Every payload arrives, in any order.
    UnorderedReliable {
        /// Largest payload that the channel carries, in bytes.
        max_frame_size: usize,
    },
    /// Every payload arrives, in the order sent.
    OrderedReliable {
        /// Largest payload that the channel carries, in bytes.
        max_frame_size: usize,
    },
}

/// Why a channel list cannot be handed to the transport.
#[derive(Clone, Copy, Debug, PartialEq, Eq, Structural)]
pub enum ConfigurationError {
    /// The list declares more channels than a one-byte channel id can tell apart.
    TooManyChannels {
        /// Length of the rejected list.
        count: usize,
    },
}

/// The transport configuration that stands for one channel of the message layer.
pub open spec fn config_of(kind: Channel, max_frame_size: usize) -> ChannelConfig {
    match kind {
        Channel::Unreliable => ChannelConfig::Unreliable,
        Channel::Unordered => ChannelConfig::UnorderedReliable { max_frame_size },
        Channel::Ordered => ChannelConfig::OrderedReliable { max_frame_size },
    }
}

/// The configurations for a whole list: one per channel, in the same order.
pub open spec fn configs_of(kinds: Seq<Channel>, max_frame_size: usize) -> Seq<ChannelConfig> {
    Seq::new(kinds.len(), |i: int| config_of(kinds[i], max_frame_size))
}

/// The frame size that reliable channels get when the caller names none:
/// eight mebibytes.
pub open spec fn default_max_reliable_frame_len() -> usize {
    8_388_608
}

/// Computes [`config_of`].
pub fn channel_config(kind: Channel, max_frame_size: usize) -> (config: ChannelConfig)
    ensures
        config == config_of(kind, max_frame_size),
{
    match kind {
        Channel::Unreliable => ChannelConfig::Unreliable,
        Channel::Unordered => ChannelConfig::UnorderedReliable { max_frame_size },
        Channel::Ordered => ChannelConfig::OrderedReliable { max_frame_size },
    }
}

/// `SendChannelsConfiguration` of bevy_quinnet: the list of channels that a
/// connection or an endpoint is opened with. Nothing inside it is visible
/// here; [`configured_channels`] names what it holds.
#[verifier::external_type_specification]
#[verifier::external_body]
pub struct ExSendChannelsConfiguration(SendChannelsConfiguration);

/// `RepliconChannels` of bevy_replicon: the channels that the message layer
/// declared, one list for each direction. Nothing inside it is visible
/// here; [`declared_server_channels`] and [`declared_client_channels`] name
/// what it holds.
#[verifier::external_type_specification]
#[verifier::external_body]
pub struct ExRepliconChannels(RepliconChannels);

/// The channels that a transport configuration list holds, by channel id.
pub uninterp spec fn configured_channels(configs: SendChannelsConfiguration) -> Seq<ChannelConfig>;

/// The channels that the message layer declared for sending from server to
/// client, by channel id.
pub uninterp spec fn declared_server_channels(channels: RepliconChannels) -> Seq<Channel>;

/// The channels that the message layer declared for sending from client to
/// server, by channel id.
pub uninterp spec fn declared_client_channels(channels: RepliconChannels) -> Seq<Channel>;

/// `SendChannelsConfiguration::new` of bevy_quinnet: a list that holds no channel.
#[verifier::external_body]
fn empty_configuration() -> (configs: SendChannelsConfiguration)
    ensures
        configured_channels(configs) == Seq::<ChannelConfig>::empty(),
{
    SendChannelsConfiguration::new()
}

/// `SendChannelsConfiguration::add` of bevy_quinnet. A list that holds fewer
/// than 256 channels gets the new one at its end and the call returns the id
/// of that channel, which is its position; a list that holds 256 stays as it
/// is and the call returns `None`.
#[verifier::external_body]
fn add_channel(configs: &mut SendChannelsConfiguration, config: ChannelConfig) -> (id: Option<u8>)
    ensures
        configured_channels(*old(configs)).len() < 256 ==> {
            &&& configured_channels(*final(configs)) == configured_channels(*old(configs)).push(config)
            &&& id == Some(configured_channels(*old(configs)).len() as u8)
        },
        configured_channels(*old(configs)).len() >= 256 ==> {
            &&& configured_channels(*final(configs)) == configured_channels(*old(configs))
            &&& id.is_none()
        },
{
    configs.add(
        match config {
            ChannelConfig::Unreliable => bevy_quinnet::shared::channels::ChannelConfig::Unreliable,
            ChannelConfig::UnorderedReliable { max_frame_size } => {
                bevy_quinnet::shared::channels::ChannelConfig::UnorderedReliable { max_frame_size }
            },
            ChannelConfig::OrderedReliable { max_frame_size } => {
                bevy_quinnet::shared::channels::ChannelConfig::OrderedReliable { max_frame_size }
            },
        },
    )
}

/// `DEFAULT_MAX_RELIABLE_FRAME_LEN` of bevy_quinnet, which its source sets to
/// `8 * 1_024 * 1_024`.
#[verifier::external_body]
fn default_frame_len() -> (len: usize)
    ensures
        len == default_max_reliable_frame_len(),
{
    bevy_quinnet::shared::channels::DEFAULT_MAX_RELIABLE_FRAME_LEN
}

/// `RepliconChannels::server_channels` of bevy_replicon: the declared server
/// channels in order, each variant carried over under its own name.
#[verifier::external_body]
fn server_channels(channels: &RepliconChannels) -> (kinds: Vec<Channel>)
    ensures
        kinds@ == declared_server_channels(*channels),
{
    channels.server_channels().iter().map(
        |kind| match kind {
            bevy_replicon::shared::backend::channels::Channel::Unreliable => Channel::Unreliable,
            bevy_replicon::shared::backend::channels::Channel::Unordered => Channel::Unordered,
            bevy_replicon::shared::backend::channels::Channel::Ordered => Channel::Ordered,
        },
    ).collect()
}

/// `RepliconChannels::client_channels` of bevy_replicon: the declared client
/// channels in order, each variant carried over under its own name.
#[verifier::external_body]
fn client_channels(channels: &RepliconChannels) -> (kinds: Vec<Channel>)
    ensures
        kinds@ == declared_client_channels(*channels),
{
    channels.client_channels().iter().map(
        |kind| match kind {
            bevy_replicon::shared::backend::channels::Channel::Unreliable => Channel::Unreliable,
            bevy_replicon::shared::backend::channels::Channel::Unordered => Channel::Unordered,
            bevy_replicon::shared::backend::channels::Channel::Ordered => Channel::Ordered,
        },
    ).collect()
}

/// What configuring the transport for `kinds` gives: the error for a list
/// that is too long, else a configuration list that holds exactly the
/// configurations of the declared channels.
pub open spec fn is_configuration_of(
    result: Result<SendChannelsConfiguration, ConfigurationError>,
    kinds: Seq<Channel>,
    max_frame_size: usize,
) -> bool {
    if kinds.len() <= MAX_CHANNELS {
        &&& result is Ok
        &&& configured_channels(result->Ok_0) == configs_of(kinds, max_frame_size)
    } else {
        result == Err::<SendChannelsConfiguration, ConfigurationError>(
            ConfigurationError::TooManyChannels { count: kinds.len() as usize },
        )
    }
}

/// Converts a channel list of the message layer into the transport's channel
/// configuration list.
///
/// A list of at most [`MAX_CHANNELS`] channels gives a configuration list of
/// the same length, whose channel at each id is the configuration of the
/// declared channel at that id. A longer list is rejected.
pub fn create_configs(channels: &[Channel], max_frame_size: usize) -> (result: Result<
    SendChannelsConfiguration,
    ConfigurationError,
>)
    ensures
        is_configuration_of(result, channels@, max_frame_size),
        result is Ok <==> channels@.len() <= MAX_CHANNELS,
        result matches Ok(configs) ==> {
            &&& configured_channels(configs).len() == channels@.len()
            &&& forall|i: int|
                0 <= i < channels@.len() ==> #[trigger] configured_channels(configs)[i] == config_of(
                    channels@[i],
                    max_frame_size,
                )
        },
{
    if channels.len() > MAX_CHANNELS {
        return Err(ConfigurationError::TooManyChannels { count: channels.len() });
    }
    let mut configs = empty_configuration();
    let mut next: usize = 0;
    while next < channels.len()
        invariant
            next <= channels@.len() <= MAX_CHANNELS,
            configured_channels(configs) == configs_of(channels@.take(next as int), max_frame_size),
        decreases channels@.len() - next,
    {
        let _ = add_channel(&mut configs, channel_config(channels[next], max_frame_size));
        proof {
            assert(configs_of(channels@.take(next as int), max_frame_size).push(
                config_of(channels@[next as int], max_frame_size),
            ) =~= configs_of(channels@.take(next + 1), max_frame_size));
        }
        next += 1;
    }
    proof {
        assert(channels@.take(next as int) =~= channels@);
    }
    Ok(configs)
}

/// Channel configurations for the transport, made from the channel lists
/// that the message layer declared.
pub trait ChannelsConfigurationExt {
    /// The channels declared for the direction from server to client.
    spec fn server_channel_kinds(&self) -> Seq<Channel>;

    /// The channels declared for the direction from client to server.
    spec fn client_channel_kinds(&self) -> Seq<Channel>;

    /// Returns the configurations with which a server endpoint is started,
    /// with the default frame size on reliable channels.
    fn server_configs(&self) -> (result: Result<SendChannelsConfiguration, ConfigurationError>)
        ensures
            is_configuration_of(result, self.server_channel_kinds(), default_max_reliable_frame_len()),
    ;

    /// Same as [`ChannelsConfigurationExt::server_configs`], with the frame
    /// size that reliable channels get chosen by the caller.
    fn server_configs_custom(&self, max_reliable_payload_size: usize) -> (result: Result<
        SendChannelsConfiguration,
        ConfigurationError,
    >)
        ensures
            is_configuration_of(result, self.server_channel_kinds(), max_reliable_payload_size),
    ;

    /// Returns the configurations with which a client opens its connection,
    /// with the default frame size on reliable channels.
    fn client_configs(&self) -> (result: Result<SendChannelsConfiguration, ConfigurationError>)
        ensures
            is_configuration_of(result, self.client_channel_kinds(), default_max_reliable_frame_len()),
    ;

    /// Same as [`ChannelsConfigurationExt::client_configs`], with the frame
    /// size that reliable channels get chosen by the caller.
    fn client_configs_custom(&self, max_reliable_payload_size: usize) -> (result: Result<
        SendChannelsConfiguration,
        ConfigurationError,
    >)
        ensures
            is_configuration_of(result, self.client_channel_kinds(), max_reliable_payload_size),
    ;
}

impl ChannelsConfigurationExt for RepliconChannels {
    open spec fn server_channel_kinds(&self) -> Seq<Channel> {
        declared_server_channels(*self)
    }

    open spec fn client_channel_kinds(&self) -> Seq<Channel> {
        declared_client_channels(*self)
    }

    fn server_configs(&self) -> (result: Result<SendChannelsConfiguration, ConfigurationError>) {
        self.server_configs_custom(default_frame_len())
    }

    fn server_configs_custom(&self, max_reliable_payload_size: usize) -> (result: Result<
        SendChannelsConfiguration,
        ConfigurationError,
    >) {
        let channels = server_channels(self);
        create_configs(channels.as_slice(), max_reliable_payload_size)
    }

    fn client_configs(&self) -> (result: Result<SendChannelsConfiguration, ConfigurationError>) {
        self.client_configs_custom(default_frame_len())
    }

    fn client_configs_custom(&self, max_reliable_payload_size: usize) -> (result: Result<
        SendChannelsConfiguration,
        ConfigurationError,
    >) {
        let channels = client_channels(self);
        create_configs(channels.as_slice(), max_reliable_payload_size)
    }
}

} // verus!
