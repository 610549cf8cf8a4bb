//! Discord webhook endpoint: posts each validated message's text as a JSON
//! webhook payload. The HTTP POST itself lives outside the library; held
//! here are the endpoint's configuration data, its validation, its key
//! generation, and the exact JSON text of the payload it sends.

use crate::codec::{escape_into, escape_string};
use crate::endpoints::{
    clone_strings, derived_keys, generate_key_vec, named_key_sets_view, NamedKeySet,
    NamedKeySetView,
};
use crate::error::Error;
use crate::notifications::Key;
use crate::text::{append_str, push_char};
use vstd::prelude::*;

verus! {

/// Which mention classes a webhook message may ping.
#[derive(Debug, PartialEq, Eq, Clone, Copy)]
pub enum MentionType {
    Roles,
    Users,
    Everyone,
}

/// Mathematical content of [`AllowedMentions`].
pub ghost struct AllowedMentionsView {
    pub parse: Option<Seq<MentionType>>,
    pub roles: Option<Seq<Seq<char>>>,
    pub users: Option<Seq<Seq<char>>>,
    pub replied_user: Option<bool>,
}

/// The `allowed_mentions` object of a Discord webhook payload.
#[derive(Debug, Clone)]
pub struct AllowedMentions {
    parse: Option<Vec<MentionType>>,
    roles: Option<Vec<String>>,
    users: Option<Vec<String>>,
    replied_user: Option<bool>,
}

impl View for AllowedMentions {
    type V = AllowedMentionsView;

    closed spec fn view(&self) -> AllowedMentionsView {
        AllowedMentionsView {
            parse: match &self.parse {
                Some(v) => Some(v@),
                None => None,
            },
            roles: match &self.roles {
                Some(v) => Some(v.deep_view()),
                None => None,
            },
            users: match &self.users {
                Some(v) => Some(v.deep_view()),
                None => None,
            },
            replied_user: self.replied_user,
        }
    }
}

impl AllowedMentions {
    /// Assemble an `allowed_mentions` object field by field.
    pub fn new(
        parse: Option<Vec<MentionType>>,
        roles: Option<Vec<String>>,
        users: Option<Vec<String>>,
        replied_user: Option<bool>,
    ) -> (r: AllowedMentions)
        ensures
            r@.parse == (match parse {
                Some(v) => Some(v@),
                None => None::<Seq<MentionType>>,
            }),
            r@.roles == (match roles {
                Some(v) => Some(v.deep_view()),
                None => None::<Seq<Seq<char>>>,
            }),
            r@.users == (match users {
                Some(v) => Some(v.deep_view()),
                None => None::<Seq<Seq<char>>>,
            }),
            r@.replied_user == replied_user,
    {
        AllowedMentions { parse, roles, users, replied_user }
    }

    /// The default: an empty `parse` list, which suppresses all mentions.
    pub fn empty() -> (r: AllowedMentions)
        ensures
            r@.parse == Some(Seq::<MentionType>::empty()),
            r@.roles is None,
            r@.users is None,
            r@.replied_user is None,
    {
        let r = AllowedMentions {
            parse: Some(Vec::new()),
            roles: None,
            users: None,
            replied_user: None,
        };
        assert(r@.parse matches Some(s) && s =~= Seq::<MentionType>::empty());
        r
    }
}

/// Mathematical content of a [`DiscordEndpoint`].
pub ghost struct DiscordEndpointView {
    pub url: Seq<char>,
    pub username: Option<Seq<char>>,
    pub avatar_url: Option<Seq<char>>,
    pub tts: bool,
    pub notifications: Seq<Seq<char>>,
    pub allowed_mentions: AllowedMentionsView,
}

/// Configuration data for the Discord webhook endpoint.
pub struct DiscordConfigFile {
    pub url: String,
    pub username: Option<String>,
    pub avatar_url: Option<String>,
    pub tts: bool,
    pub notifications: Vec<String>,
    pub allowed_mentions: Option<AllowedMentions>,
}

/// Data structure to represent the Discord webhook endpoint.
#[derive(Debug, Clone)]
pub struct DiscordEndpoint {
    url: String,
    username: Option<String>,
    avatar_url: Option<String>,
    tts: bool,
    notifications: Vec<String>,
    allowed_mentions: AllowedMentions,
}

impl View for DiscordEndpoint {
    type V = DiscordEndpointView;

    closed spec fn view(&self) -> DiscordEndpointView {
        DiscordEndpointView {
            url: self.url@,
            username: match &self.username {
                Some(u) => Some(u@),
                None => None,
            },
            avatar_url: match &self.avatar_url {
                Some(u) => Some(u@),
                None => None,
            },
            tts: self.tts,
            notifications: self.notifications.deep_view(),
            allowed_mentions: self.allowed_mentions@,
        }
    }
}

impl DiscordEndpoint {
    /// The webhook URL messages are posted to.
    pub fn url(&self) -> (r: &str)
        ensures
            r@ == self@.url,
    {
        self.url.as_str()
    }

    /// Return all associated notification names.
    pub fn notifications(&self) -> (r: &[String])
        ensures
            r.deep_view() == self@.notifications,
    {
        self.notifications.as_slice()
    }

    /// Build a `DiscordEndpoint` from configuration data, rejecting a blank
    /// URL and an empty notification list; a missing `allowed_mentions`
    /// falls back to the suppress-all default.
    pub fn from_config(value: DiscordConfigFile) -> (r: Result<DiscordEndpoint, Error>)
        ensures
            match r {
                Ok(e) => {
                    &&& value.url@.len() > 0 && value.notifications@.len() > 0
                    &&& e@.url == value.url@
                    &&& e@.username == (match value.username {
                        Some(u) => Some(u@),
                        None => None::<Seq<char>>,
                    })
                    &&& e@.avatar_url == (match value.avatar_url {
                        Some(u) => Some(u@),
                        None => None::<Seq<char>>,
                    })
                    &&& e@.tts == value.tts
                    &&& e@.notifications == value.notifications.deep_view()
                    &&& (match value.allowed_mentions {
                        Some(m) => e@.allowed_mentions == m@,
                        None => e@.allowed_mentions.parse == Some(Seq::<MentionType>::empty())
                            && e@.allowed_mentions.roles is None && e@.allowed_mentions.users
                            is None && e@.allowed_mentions.replied_user is None,
                    })
                },
                Err(e) => {
                    &&& (value.url@.len() == 0 || value.notifications@.len() == 0)
                    &&& (e matches Error::InvalidEndpointConfiguration(m) && (if value.url@.len()
                        == 0 {
                        m@ == "Discord configuration url is blank"@
                    } else {
                        m@ == "Discord configuration has no notifications setup"@
                    }))
                },
            },
    {
        if value.url.as_str().is_empty() {
            Err(
                Error::InvalidEndpointConfiguration(
                    "Discord configuration url is blank".to_owned(),
                ),
            )
        } else if value.notifications.is_empty() {
            Err(
                Error::InvalidEndpointConfiguration(
                    "Discord configuration has no notifications setup".to_owned(),
                ),
            )
        } else {
            let allowed_mentions = match value.allowed_mentions {
                Some(m) => m,
                None => AllowedMentions::empty(),
            };
            Ok(
                DiscordEndpoint {
                    url: value.url,
                    username: value.username,
                    avatar_url: value.avatar_url,
                    tts: value.tts,
                    notifications: value.notifications,
                    allowed_mentions,
                },
            )
        }
    }

    /// The single key set of this endpoint: every subscribed notification
    /// name, keyed under the empty sub-name.
    pub fn generate_keys(&self, hash_key: &Key) -> (r: Vec<NamedKeySet>)
        ensures
            named_key_sets_view(r@) == seq![
                NamedKeySetView {
                    sub_name: Seq::<char>::empty(),
                    keys: derived_keys(hash_key@, self@.notifications),
                },
            ],
    {
        let keys = generate_key_vec(&self.notifications, hash_key);
        let mut out: Vec<NamedKeySet> = Vec::new();
        out.push(NamedKeySet::new("", keys));
        proof {
            reveal_strlit("");
            assert(""@ =~= Seq::<char>::empty());
            assert(named_key_sets_view(out@) =~= seq![
                NamedKeySetView {
                    sub_name: Seq::<char>::empty(),
                    keys: derived_keys(hash_key@, self@.notifications),
                },
            ]);
        }
        out
    }
}

/// Mathematical content of a [`WebhookPayload`].
pub ghost struct WebhookPayloadView {
    pub content: Seq<char>,
    pub username: Option<Seq<char>>,
    pub avatar_url: Option<Seq<char>>,
    pub tts: bool,
    pub allowed_mentions: AllowedMentionsView,
}

/// The JSON payload of one Discord webhook POST.
#[derive(Debug, Clone)]
pub struct WebhookPayload {
    content: String,
    username: Option<String>,
    avatar_url: Option<String>,
    tts: bool,
    allowed_mentions: AllowedMentions,
}

impl View for WebhookPayload {
    type V = WebhookPayloadView;

    closed spec fn view(&self) -> WebhookPayloadView {
        WebhookPayloadView {
            content: self.content@,
            username: match &self.username {
                Some(u) => Some(u@),
                None => None,
            },
            avatar_url: match &self.avatar_url {
                Some(u) => Some(u@),
                None => None,
            },
            tts: self.tts,
            allowed_mentions: self.allowed_mentions@,
        }
    }
}

/// The JSON text of a quoted string value.
pub open spec fn json_string(s: Seq<char>) -> Seq<char> {
    seq!['"'] + escape_string(s) + seq!['"']
}

/// The JSON text of a boolean value.
pub open spec fn json_bool(b: bool) -> Seq<char> {
    if b {
        "true"@
    } else {
        "false"@
    }
}

/// The members of a JSON array of quoted strings, comma separated.
pub open spec fn json_array_members(ss: Seq<Seq<char>>) -> Seq<char>
    decreases ss.len(),
{
    if ss.len() == 0 {
        Seq::<char>::empty()
    } else if ss.len() == 1 {
        json_string(ss[0])
    } else {
        json_array_members(ss.drop_last()) + seq![','] + json_string(ss.last())
    }
}

/// The JSON text of an array of quoted strings.
pub open spec fn json_string_array(ss: Seq<Seq<char>>) -> Seq<char> {
    seq!['['] + json_array_members(ss) + seq![']']
}

/// The name a mention class serializes to.
pub open spec fn mention_name(m: MentionType) -> Seq<char> {
    match m {
        MentionType::Roles => "roles"@,
        MentionType::Users => "users"@,
        MentionType::Everyone => "everyone"@,
    }
}

/// The JSON text of the `allowed_mentions` object, members in declaration
/// order, absent members skipped.
pub open spec fn allowed_mentions_json(m: AllowedMentionsView) -> Seq<char> {
    let parse_part = match m.parse {
        Some(ps) => ",\"parse\":"@ + json_string_array(
            ps.map_values(|p: MentionType| mention_name(p)),
        ),
        None => Seq::<char>::empty(),
    };
    let roles_part = match m.roles {
        Some(rs) => ",\"roles\":"@ + json_string_array(rs),
        None => Seq::<char>::empty(),
    };
    let users_part = match m.users {
        Some(us) => ",\"users\":"@ + json_string_array(us),
        None => Seq::<char>::empty(),
    };
    let replied_part = match m.replied_user {
        Some(b) => ",\"replied_user\":"@ + json_bool(b),
        None => Seq::<char>::empty(),
    };
    let members = parse_part + roles_part + users_part + replied_part;
    if members.len() == 0 {
        "{}"@
    } else {
        seq!['{'] + members.drop_first() + seq!['}']
    }
}

/// The JSON text of a whole webhook payload, members in declaration order,
/// absent members skipped.
pub open spec fn webhook_json(p: WebhookPayloadView) -> Seq<char> {
    "{\"content\":"@ + json_string(p.content) + (match p.username {
        Some(u) => ",\"username\":"@ + json_string(u),
        None => Seq::<char>::empty(),
    }) + (match p.avatar_url {
        Some(u) => ",\"avatar_url\":"@ + json_string(u),
        None => Seq::<char>::empty(),
    }) + ",\"tts\":"@ + json_bool(p.tts) + ",\"allowed_mentions\":"@ + allowed_mentions_json(
        p.allowed_mentions,
    ) + seq!['}']
}

impl WebhookPayload {
    /// Assemble the payload for one message under the endpoint's settings.
    pub fn new(content: &str, config: &DiscordEndpoint) -> (r: WebhookPayload)
        ensures
            r@.content == content@,
            r@.username == config@.username,
            r@.avatar_url == config@.avatar_url,
            r@.tts == config@.tts,
            r@.allowed_mentions == config@.allowed_mentions,
    {
        WebhookPayload {
            content: content.to_owned(),
            username: match &config.username {
                Some(u) => Some(u.clone()),
                None => None,
            },
            avatar_url: match &config.avatar_url {
                Some(u) => Some(u.clone()),
                None => None,
            },
            tts: config.tts,
            allowed_mentions: AllowedMentions {
                parse: match &config.allowed_mentions.parse {
                    Some(v) => Some(clone_mentions(v)),
                    None => None,
                },
                roles: match &config.allowed_mentions.roles {
                    Some(v) => Some(clone_strings(v.as_slice())),
                    None => None,
                },
                users: match &config.allowed_mentions.users {
                    Some(v) => Some(clone_strings(v.as_slice())),
                    None => None,
                },
                replied_user: config.allowed_mentions.replied_user,
            },
        }
    }
}

/// Append a quoted, escaped JSON string value.
fn append_json_string(out: &mut String, s: &str)
    ensures
        final(out)@ == old(out)@ + json_string(s@),
{
    push_char(out, '"');
    escape_into(out, s);
    push_char(out, '"');
    assert(out@ =~= old(out)@ + json_string(s@));
}

/// Append a JSON boolean value.
fn append_bool(out: &mut String, b: bool)
    ensures
        final(out)@ == old(out)@ + json_bool(b),
{
    if b {
        append_str(out, "true");
    } else {
        append_str(out, "false");
    }
}

/// Append a JSON array of quoted strings.
fn append_string_array(out: &mut String, ss: &Vec<String>)
    ensures
        final(out)@ == old(out)@ + json_string_array(ss.deep_view()),
{
    push_char(out, '[');
    let mut i: usize = 0;
    while i < ss.len()
        invariant
            i <= ss@.len(),
            ss.deep_view().len() == ss@.len(),
            out@ == old(out)@ + seq!['['] + json_array_members(ss.deep_view().take(i as int)),
        decreases ss@.len() - i,
    {
        if i > 0 {
            push_char(out, ',');
        }
        append_json_string(out, ss[i].as_str());
        proof {
            assert(ss.deep_view().take(i as int + 1).drop_last() =~= ss.deep_view().take(
                i as int,
            ));
            assert(ss.deep_view().take(i as int + 1).last() == ss.deep_view()[i as int]);
            assert(ss.deep_view()[i as int] == ss@[i as int]@);
        }
        assert(out@ =~= old(out)@ + seq!['['] + json_array_members(
            ss.deep_view().take(i as int + 1),
        ));
        i = i + 1;
    }
    push_char(out, ']');
    assert(ss.deep_view().take(ss@.len() as int) =~= ss.deep_view());
    assert(out@ =~= old(out)@ + json_string_array(ss.deep_view()));
}

/// The name a mention class serializes to.
fn mention_name_exec(m: &MentionType) -> (r: &'static str)
    ensures
        r@ == mention_name(*m),
{
    match m {
        MentionType::Roles => "roles",
        MentionType::Users => "users",
        MentionType::Everyone => "everyone",
    }
}

/// Append a JSON array of mention class names.
fn append_mention_array(out: &mut String, ps: &Vec<MentionType>)
    ensures
        final(out)@ == old(out)@ + json_string_array(
            ps@.map_values(|p: MentionType| mention_name(p)),
        ),
{
    let ghost names = ps@.map_values(|p: MentionType| mention_name(p));
    push_char(out, '[');
    let mut i: usize = 0;
    while i < ps.len()
        invariant
            i <= ps@.len(),
            names == ps@.map_values(|p: MentionType| mention_name(p)),
            names.len() == ps@.len(),
            out@ == old(out)@ + seq!['['] + json_array_members(names.take(i as int)),
        decreases ps@.len() - i,
    {
        if i > 0 {
            push_char(out, ',');
        }
        append_json_string(out, mention_name_exec(&ps[i]));
        proof {
            assert(names.take(i as int + 1).drop_last() =~= names.take(i as int));
            assert(names.take(i as int + 1).last() == names[i as int]);
            assert(names[i as int] == mention_name(ps@[i as int]));
        }
        assert(out@ =~= old(out)@ + seq!['['] + json_array_members(names.take(i as int + 1)));
        i = i + 1;
    }
    push_char(out, ']');
    assert(names.take(ps@.len() as int) =~= names);
    assert(out@ =~= old(out)@ + json_string_array(names));
}

/// Append the `allowed_mentions` object.
#[verifier::rlimit(100)]
fn append_allowed_mentions(out: &mut String, m: &AllowedMentions)
    ensures
        final(out)@ == old(out)@ + allowed_mentions_json(m@),
{
    let mut members = String::new();
    match &m.parse {
        Some(v) => {
            append_str(&mut members, ",\"parse\":");
            append_mention_array(&mut members, v);
        },
        None => {},
    }
    match &m.roles {
        Some(v) => {
            append_str(&mut members, ",\"roles\":");
            append_string_array(&mut members, v);
        },
        None => {},
    }
    match &m.users {
        Some(v) => {
            append_str(&mut members, ",\"users\":");
            append_string_array(&mut members, v);
        },
        None => {},
    }
    match &m.replied_user {
        Some(b) => {
            append_str(&mut members, ",\"replied_user\":");
            append_bool(&mut members, *b);
        },
        None => {},
    }
    if members.as_str().is_empty() {
        append_str(out, "{}");
    } else {
        proof {
            reveal_strlit(",\"parse\":");
            reveal_strlit(",\"roles\":");
            reveal_strlit(",\"users\":");
            reveal_strlit(",\"replied_user\":");
        }
        push_char(out, '{');
        let n = members.as_str().unicode_len();
        let rest = members.as_str().substring_char(1, n);
        append_str(out, rest);
        push_char(out, '}');
        assert(members@.subrange(1, n as int) =~= members@.drop_first());
        assert(out@ =~= old(out)@ + allowed_mentions_json(m@));
    }
}

impl WebhookPayload {
    /// The JSON text of this payload, as it is posted to the webhook.
    pub fn to_json(&self) -> (r: String)
        ensures
            r@ == webhook_json(self@),
    {
        let mut out = String::new();
        append_str(&mut out, "{\"content\":");
        append_json_string(&mut out, self.content.as_str());
        match &self.username {
            Some(u) => {
                append_str(&mut out, ",\"username\":");
                append_json_string(&mut out, u.as_str());
            },
            None => {},
        }
        match &self.avatar_url {
            Some(u) => {
                append_str(&mut out, ",\"avatar_url\":");
                append_json_string(&mut out, u.as_str());
            },
            None => {},
        }
        append_str(&mut out, ",\"tts\":");
        append_bool(&mut out, self.tts);
        append_str(&mut out, ",\"allowed_mentions\":");
        append_allowed_mentions(&mut out, &self.allowed_mentions);
        push_char(&mut out, '}');
        assert(out@ =~= webhook_json(self@));
        out
    }
}

/// Clone a vector of mention classes.
fn clone_mentions(src: &Vec<MentionType>) -> (r: Vec<MentionType>)
    ensures
        r@ == src@,
{
    let mut out: Vec<MentionType> = Vec::new();
    let mut i: usize = 0;
    while i < src.len()
        invariant
            i <= src@.len(),
            out@ == src@.take(i as int),
        decreases src@.len() - i,
    {
        out.push(src[i]);
        assert(out@ =~= src@.take(i as int + 1));
        i = i + 1;
    }
    assert(src@.take(src@.len() as int) =~= src@);
    out
}

} // verus!
