//! A plain-data model of the chat platform that the command engine acts
//! against: identifiers, inbound messages, outbound messages and embeds, a
//! send log, shard state, and the context handed to every handler.
//!
//! The surrounding program performs the real network work; the handlers only
//! read this state and record what must be sent or changed, so everything
//! they decide is verified.

use vstd::prelude::*;
use crate::config::Config;
use crate::localization::{L10NBundle, L10NError, spec_localize, opt_args};
use crate::rng::RandomSource;

verus! {

#[derive(Debug, PartialEq, Eq, Structural, Clone, Copy)]
pub struct ChannelId(pub u64);

#[derive(Debug, PartialEq, Eq, Structural, Clone, Copy)]
pub struct UserId(pub u64);

#[derive(Debug, PartialEq, Eq, Structural, Clone, Copy)]
pub struct GuildChannel {
    pub guild_id: u64,
}

#[derive(Debug, PartialEq, Eq, Structural, Clone, Copy)]
pub struct PrivateChannel {
}

#[derive(Debug, PartialEq, Eq, Structural, Clone, Copy)]
pub struct ChannelCategory {
}

/// A channel as the platform reports it.
#[derive(Debug, PartialEq, Eq, Structural, Clone, Copy)]
pub enum Channel {
    Guild(GuildChannel),
    Private(PrivateChannel),
    Category(ChannelCategory),
}

/// A platform user, as far as the handlers read one.
#[derive(Debug, PartialEq)]
pub struct User {
    pub avatar: Option<String>,
}

#[derive(Debug, PartialEq, Eq, Structural, Clone, Copy)]
pub struct MessageId {
    pub created_at_ms: i64,
}

impl MessageId {
    pub fn new(created_at_ms: i64) -> (r: MessageId)
        ensures
            r.created_at_ms == created_at_ms,
    {
        MessageId { created_at_ms }
    }

    pub fn created_at(&self) -> (r: i64)
        ensures
            r == self.created_at_ms,
    {
        self.created_at_ms
    }
}

/// An inbound message.
#[derive(Debug)]
pub struct Message {
    pub id: MessageId,
    pub channel_id: ChannelId,
    pub guild_id: Option<u64>,
    pub content: String,
    pub author_id: u64,
    pub author_name: String,
    pub author_is_admin: bool,
}

impl Message {
    pub fn _new(id: MessageId, channel_id: u64, content: String, guild_id: u64) -> (r: Message)
        ensures
            r.id == id,
            r.channel_id == (ChannelId(channel_id)),
            r.content == content,
            r.guild_id == Some(guild_id),
            r.author_id == 0,
            r.author_is_admin,
    {
        Message {
            id,
            channel_id: ChannelId(channel_id),
            guild_id: Some(guild_id),
            content,
            author_id: 0,
            author_name: String::new(),
            author_is_admin: true,
        }
    }

    pub fn _from_str(content: &str) -> (r: Message)
        ensures
            r.id.created_at_ms == 0,
            r.channel_id == (ChannelId(0)),
            r.content@ == content@,
            r.guild_id == Some(0u64),
            r.author_id == 0,
            r.author_is_admin,
    {
        Message {
            id: MessageId { created_at_ms: 0 },
            channel_id: ChannelId(0),
            guild_id: Some(0),
            content: String::from_str(content),
            author_id: 0,
            author_name: String::new(),
            author_is_admin: true,
        }
    }
}

/// A structured embed under construction.
#[derive(Debug, PartialEq)]
pub struct CreateEmbed {
    pub title: Option<String>,
    pub colour: u32,
    pub fields: Vec<(String, String, bool)>,
    pub footer: Option<String>,
}

impl CreateEmbed {
    pub fn new() -> (r: CreateEmbed)
        ensures
            r.title is None,
            r.colour == 0u32,
            r.fields@.len() == 0,
            r.footer is None,
    {
        CreateEmbed { title: None, colour: 0, fields: Vec::new(), footer: None }
    }

    pub fn title(&mut self, title: String)
        ensures
            *final(self) == (CreateEmbed { title: Some(title), ..*old(self) }),
    {
        self.title = Some(title);
    }

    pub fn colour(&mut self, colour: u32)
        ensures
            *final(self) == (CreateEmbed { colour, ..*old(self) }),
    {
        self.colour = colour;
    }

    pub fn field(&mut self, name: String, value: String, inline: bool)
        ensures
            final(self).fields@ == old(self).fields@.push((name, value, inline)),
            final(self).title == old(self).title,
            final(self).colour == old(self).colour,
            final(self).footer == old(self).footer,
    {
        self.fields.push((name, value, inline));
    }

    pub fn footer_text(&mut self, text: String)
        ensures
            *final(self) == (CreateEmbed { footer: Some(text), ..*old(self) }),
    {
        self.footer = Some(text);
    }
}

/// An outbound message under construction.
#[derive(Debug, PartialEq)]
pub struct CreateMessage {
    pub _embed: Option<CreateEmbed>,
}

impl CreateMessage {
    pub fn new() -> (r: CreateMessage)
        ensures
            r._embed is None,
    {
        CreateMessage { _embed: None }
    }

    pub fn embed(&mut self, e: CreateEmbed)
        ensures
            final(self)._embed == Some(e),
    {
        self._embed = Some(e);
    }
}

/// What was sent to a channel.
#[derive(Debug, PartialEq)]
pub enum MessageData {
    StrMsg(String),
    CreateMessage(CreateMessage),
}

#[derive(Debug, PartialEq, Eq, Structural, Clone, Copy)]
pub enum TransportError {
    ChannelUnavailable,
    UserUnavailable,
}

/// The handlers' window on the platform: a log of everything sent, and what
/// the platform would answer to the lookups the handlers make.
#[derive(Debug)]
pub struct Http {
    pub sent: Vec<(u64, MessageData)>,
    pub channel: Option<Channel>,
    pub user: Option<User>,
}

impl Http {
    pub fn _new() -> (r: Http)
        ensures
            r.sent@.len() == 0,
            r.channel is None,
            r.user is None,
    {
        Http { sent: Vec::new(), channel: None, user: None }
    }

    /// Records one outbound message.
    pub fn _send(&mut self, channel_id: u64, data: MessageData)
        ensures
            final(self).sent@ == old(self).sent@.push((channel_id, data)),
            final(self).channel == old(self).channel,
            final(self).user == old(self).user,
    {
        self.sent.push((channel_id, data));
    }

    /// The channel a lookup would yield.
    pub fn _get_channel(&self) -> (r: Result<&Channel, TransportError>)
        ensures
            match r {
                Ok(c) => self.channel == Some(*c),
                Err(e) => self.channel is None && e == TransportError::ChannelUnavailable,
            },
    {
        match &self.channel {
            Some(c) => Ok(c),
            None => Err(TransportError::ChannelUnavailable),
        }
    }

    /// The user a lookup would yield.
    pub fn _get_user(&self) -> (r: Result<&User, TransportError>)
        ensures
            match r {
                Ok(u) => self.user == Some(*u),
                Err(e) => self.user is None && e == TransportError::UserUnavailable,
            },
    {
        match &self.user {
            Some(u) => Ok(u),
            None => Err(TransportError::UserUnavailable),
        }
    }
}

impl ChannelId {
    /// Sends a plain text message to this channel.
    pub fn say(&self, http: &mut Http, content: String)
        ensures
            final(http).sent@ == old(http).sent@.push((self.0, MessageData::StrMsg(content))),
            final(http).channel == old(http).channel,
            final(http).user == old(http).user,
    {
        http._send(self.0, MessageData::StrMsg(content));
    }

    /// Sends a built message to this channel.
    pub fn send_message(&self, http: &mut Http, m: CreateMessage)
        ensures
            final(http).sent@ == old(http).sent@.push((self.0, MessageData::CreateMessage(m))),
            final(http).channel == old(http).channel,
            final(http).user == old(http).user,
    {
        http._send(self.0, MessageData::CreateMessage(m));
    }

    /// Resolves this id to a channel.
    pub fn to_channel<'a>(&self, http: &'a Http) -> (r: Result<&'a Channel, TransportError>)
        ensures
            match r {
                Ok(c) => http.channel == Some(*c),
                Err(e) => http.channel is None && e == TransportError::ChannelUnavailable,
            },
    {
        http._get_channel()
    }
}

impl UserId {
    /// Resolves this id to a user.
    pub fn to_user<'a>(&self, http: &'a Http) -> (r: Result<&'a User, TransportError>)
        ensures
            match r {
                Ok(u) => http.user == Some(*u),
                Err(e) => http.user is None && e == TransportError::UserUnavailable,
            },
    {
        http._get_user()
    }
}

#[derive(Debug, PartialEq, Eq, Structural, Clone, Copy)]
pub struct ShardRunnerInfo {
    pub latency: Option<u64>,
}

/// The shard lifecycles the owner commands steer.
#[derive(Debug)]
pub struct ShardManager {
    pub runners: Vec<(u64, ShardRunnerInfo)>,
    pub shutdown: bool,
    pub restarted: Vec<u64>,
}

#[derive(Debug, PartialEq, Eq, Structural, Clone, Copy)]
pub enum ShardManagerError {
    MissingFromShareMap,
}

#[derive(Debug, PartialEq, Eq, Structural, Clone, Copy)]
pub enum ClientError {
    MissingFromShareMap,
}

/// First runner entry for a shard id, if any.
pub open spec fn spec_runner(runners: Seq<(u64, ShardRunnerInfo)>, id: u64) -> Option<
    ShardRunnerInfo,
>
    decreases runners.len(),
{
    if runners.len() == 0 {
        None
    } else if runners[0].0 == id {
        Some(runners[0].1)
    } else {
        spec_runner(runners.skip(1), id)
    }
}

impl ShardManager {
    pub fn _new(runners: Vec<(u64, ShardRunnerInfo)>) -> (r: ShardManager)
        ensures
            r.runners == runners,
            !r.shutdown,
            r.restarted@.len() == 0,
    {
        ShardManager { runners, shutdown: false, restarted: Vec::new() }
    }

    /// Asks every shard to shut down.
    pub fn shutdown_all(&mut self)
        ensures
            *final(self) == (ShardManager { shutdown: true, ..*old(self) }),
    {
        self.shutdown = true;
    }

    /// Asks one shard to restart.
    pub fn restart(&mut self, id: u64)
        ensures
            final(self).restarted@ == old(self).restarted@.push(id),
            final(self).runners == old(self).runners,
            final(self).shutdown == old(self).shutdown,
    {
        self.restarted.push(id);
    }

    /// The ids of the instantiated shards, in order.
    pub fn shards_instantiated(&self) -> (r: Vec<u64>)
        ensures
            r@ == self.runners@.map_values(|p: (u64, ShardRunnerInfo)| p.0),
    {
        let mut out: Vec<u64> = Vec::new();
        let mut i: usize = 0;
        while i < self.runners.len()
            invariant
                i <= self.runners@.len(),
                out@ == self.runners@.subrange(0, i as int).map_values(
                    |p: (u64, ShardRunnerInfo)| p.0,
                ),
            decreases self.runners@.len() - i,
        {
            out.push(self.runners[i].0);
            assert(out@ =~= self.runners@.subrange(0, i + 1).map_values(
                |p: (u64, ShardRunnerInfo)| p.0,
            ));
            i = i + 1;
        }
        assert(self.runners@.subrange(0, self.runners@.len() as int) =~= self.runners@);
        out
    }

    /// Looks a runner up by shard id.
    pub fn runner(&self, id: u64) -> (r: Option<&ShardRunnerInfo>)
        ensures
            match r {
                Some(info) => spec_runner(self.runners@, id) == Some(*info),
                None => spec_runner(self.runners@, id) is None,
            },
    {
        let mut i: usize = 0;
        proof {
            assert(self.runners@.skip(0) =~= self.runners@);
        }
        while i < self.runners.len()
            invariant
                i <= self.runners@.len(),
                spec_runner(self.runners@, id) == spec_runner(self.runners@.skip(i as int), id),
            decreases self.runners@.len() - i,
        {
            proof {
                assert(self.runners@.skip(i as int)[0] == self.runners@[i as int]);
                assert(self.runners@.skip(i as int).skip(1) =~= self.runners@.skip(i + 1));
            }
            let entry = &self.runners[i];
            if entry.0 == id {
                return Some(&entry.1);
            }
            i = i + 1;
        }
        None
    }
}

#[derive(Debug, PartialEq)]
pub struct CurrentUser {
    pub id: u64,
    pub name: String,
}

impl CurrentUser {
    pub fn _new(id: u64, name: String) -> (r: CurrentUser)
        ensures
            r.id == id,
            r.name == name,
    {
        CurrentUser { id, name }
    }
}

/// The gateway's cache, as far as the handlers read it.
#[derive(Debug)]
pub struct Cache {
    pub user: CurrentUser,
}

/// The state handed to a handler: the shared components, the platform
/// window, the injected clock, process and version facts, the name
/// directories used to resolve references in arguments, the randomness
/// source, and logs of presence changes and file writes.
#[derive(Debug)]
pub struct Context {
    pub config: Option<Config>,
    pub bundle: Option<L10NBundle>,
    pub shard_manager: Option<ShardManager>,
    pub http: Http,
    pub cache: Cache,
    pub shard_id: u64,
    pub now_ms: i64,
    pub process_start_secs: Option<u64>,
    pub version: String,
    pub presence: Vec<Option<String>>,
    pub fs_writes: Vec<(String, String)>,
    pub channel_directory: Vec<(String, u64)>,
    pub user_directory: Vec<(String, u64)>,
    pub random: RandomSource,
}

/// Everything of two contexts agrees except possibly the presence log.
pub open spec fn ctx_same_but_presence(a: Context, b: Context) -> bool {
    &&& b.config == a.config
    &&& b.bundle == a.bundle
    &&& b.shard_manager == a.shard_manager
    &&& b.http == a.http
    &&& b.cache == a.cache
    &&& b.shard_id == a.shard_id
    &&& b.now_ms == a.now_ms
    &&& b.process_start_secs == a.process_start_secs
    &&& b.version == a.version
    &&& b.fs_writes == a.fs_writes
    &&& b.channel_directory == a.channel_directory
    &&& b.user_directory == a.user_directory
    &&& b.random == a.random
}

/// What localizing through a context yields, when it succeeds.
pub open spec fn ctx_localize(
    ctx: Context,
    id: Seq<char>,
    args: Seq<(Seq<char>, Seq<char>)>,
) -> Option<Seq<char>> {
    match ctx.bundle {
        None => None,
        Some(b) => spec_localize(b, id, args),
    }
}

impl Context {
    pub fn _new(http: Http) -> (r: Context)
        ensures
            r.config is None,
            r.bundle is None,
            r.shard_manager is None,
            r.http == http,
            r.cache.user.id == 0u64,
            r.shard_id == 0u64,
            r.now_ms == 0i64,
            r.process_start_secs is None,
            r.presence@.len() == 0,
            r.fs_writes@.len() == 0,
            r.channel_directory@.len() == 0,
            r.user_directory@.len() == 0,
            r.random is System,
    {
        Context {
            config: None,
            bundle: None,
            shard_manager: None,
            http,
            cache: Cache { user: CurrentUser { id: 0, name: String::new() } },
            shard_id: 0,
            now_ms: 0,
            process_start_secs: None,
            version: String::new(),
            presence: Vec::new(),
            fs_writes: Vec::new(),
            channel_directory: Vec::new(),
            user_directory: Vec::new(),
            random: RandomSource::System,
        }
    }

    /// Records a new presence with the given activity.
    pub fn set_activity(&mut self, activity: String)
        ensures
            final(self).presence@ == old(self).presence@.push(Some(activity)),
            ctx_same_but_presence(*old(self), *final(self)),
    {
        self.presence.push(Some(activity));
    }

    /// Records a presence reset.
    pub fn reset_presence(&mut self)
        ensures
            final(self).presence@ == old(self).presence@.push(None),
            ctx_same_but_presence(*old(self), *final(self)),
    {
        self.presence.push(None);
    }

    /// Localizes a message id through the installed bundle.
    pub fn localize_msg(&self, msg_id: &str, args: Option<&Vec<(String, String)>>) -> (r: Result<
        String,
        L10NError,
    >)
        ensures
            match r {
                Ok(s) => ctx_localize(*self, msg_id@, opt_args(args)) == Some(s@),
                Err(L10NError::MissingFromShareMap) => self.bundle is None,
                Err(e) => self.bundle is Some && ctx_localize(*self, msg_id@, opt_args(args))
                    is None && !(e is MissingFromShareMap),
            },
    {
        match &self.bundle {
            Some(b) => b.localize_msg(msg_id, args),
            None => Err(L10NError::MissingFromShareMap),
        }
    }
}

/// A client, as the startup code sees it: the same shared components before
/// they are moved into the running context.
#[derive(Debug)]
pub struct Client {
    pub config: Option<Config>,
    pub bundle: Option<L10NBundle>,
    pub shard_manager: Option<ShardManager>,
}

impl Client {
    pub fn _new() -> (r: Client)
        ensures
            r.config is None,
            r.bundle is None,
            r.shard_manager is None,
    {
        Client { config: None, bundle: None, shard_manager: None }
    }

    /// Localizes a message id through the installed bundle.
    pub fn localize_msg(&self, msg_id: &str, args: Option<&Vec<(String, String)>>) -> (r: Result<
        String,
        L10NError,
    >)
        ensures
            match r {
                Ok(s) => match self.bundle {
                    Some(b) => spec_localize(b, msg_id@, opt_args(args)) == Some(s@),
                    None => false,
                },
                Err(L10NError::MissingFromShareMap) => self.bundle is None,
                Err(e) => match self.bundle {
                    Some(b) => spec_localize(b, msg_id@, opt_args(args)) is None && !(e
                        is MissingFromShareMap),
                    None => false,
                },
            },
    {
        match &self.bundle {
            Some(b) => b.localize_msg(msg_id, args),
            None => Err(L10NError::MissingFromShareMap),
        }
    }
}

/// Events the gateway reports at startup.
#[derive(Debug)]
pub struct Ready {
    pub user: CurrentUser,
}

#[derive(Debug, PartialEq, Eq, Structural, Clone, Copy)]
pub struct ResumedEvent {
}

} // verus!
