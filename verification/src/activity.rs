use vstd::prelude::*;

use crate::protocol::public_key::PublicKey;

verus! {

/// A colour of the palette.
#[derive(Debug, Clone, Copy)]
pub struct Color {
    pub r: u8,
    pub g: u8,
    pub b: u8,
}

/// The kind of an actor.
#[derive(Debug, Clone, Copy, PartialEq, Eq, Structural)]
pub enum PersonType {
    Person,
    Application,
}

/// An actor of the federation. Its addresses are held as the text that the URL parser
/// writes for them.
#[derive(Debug, Clone)]
pub struct Actor {
    pub id: String,
    pub kind: PersonType,
    pub preferred_username: String,
    pub name: String,
    pub inbox: String,
    pub outbox: String,
    pub public_key: Option<PublicKey>,
}

/// The kind of an activity or of the object it carries.
#[derive(Debug, Clone, Copy, PartialEq, Eq, Structural)]
pub enum ActivityType {
    Create,
    Note,
}

/// The object of an activity: a note whose content is read as a placement.
#[derive(Debug, Clone, PartialEq, Eq)]
pub struct Object {
    pub id: String,
    pub kind: ActivityType,
    pub content: String,
}

/// An activity that creates an object, as an inbox receives it.
#[derive(Debug, Clone, PartialEq, Eq)]
pub struct CreateActivity {
    pub id: String,
    pub actor: String,
    pub kind: ActivityType,
    pub object: Object,
}

/// What `url::Url::parse` makes of the text `input`: the serialization of the URL that it
/// reads, or nothing where it refuses the text.
pub uninterp spec fn url_serialization(input: Seq<char>) -> Option<Seq<char>>;

/// Calls `url::Url::parse` on `input` and hands back the serialization of the URL
/// (`String::from(url)`), or `None` where the parser returns an error. The contract claims
/// only that the outcome is `url_serialization` of the input text; nothing is claimed of
/// which texts the parser accepts or of how it writes them.
#[verifier::external_body]
fn parse_url(input: &str) -> (r: Option<String>)
    ensures
        match r {
            Some(h) => url_serialization(input@) == Some(h@),
            None => url_serialization(input@) is None,
        },
{
    match url::Url::parse(input) {
        Ok(u) => Some(String::from(u)),
        Err(_) => None,
    }
}

/// The host that this instance serves.
pub open spec fn local_host() -> Seq<char> {
    "http://localhost:8000"@
}

/// The address text of `path` on `host`, as the system actor writes it: host, a slash, the
/// path and a line feed.
pub open spec fn address_text(host: Seq<char>, path: Seq<char>) -> Seq<char> {
    host + "/"@ + path + "\n"@
}

/// Writes `host`, a slash, `path` and a line feed.
pub fn address(host: &str, path: &str) -> (r: String)
    ensures
        r@ == address_text(host@, path@),
{
    let mut r = host.to_owned();
    r.append("/");
    r.append(path);
    r.append("\n");
    r
}

/// The system actor with the given addresses.
pub open spec fn system_actor_with(id: Seq<char>, inbox: Seq<char>, outbox: Seq<char>, a: Actor) -> bool {
    &&& a.id@ == id
    &&& a.kind == PersonType::Person
    &&& a.preferred_username@ == "system"@
    &&& a.name@ == "fediplace"@
    &&& a.inbox@ == inbox
    &&& a.outbox@ == outbox
    &&& a.public_key is None
}

impl Actor {
    /// The system actor of this instance, at the given (parsed) addresses.
    pub fn system_at(id: String, inbox: String, outbox: String) -> (a: Actor)
        ensures
            system_actor_with(id@, inbox@, outbox@, a),
    {
        Actor {
            id,
            kind: PersonType::Person,
            preferred_username: "system".to_owned(),
            name: "fediplace".to_owned(),
            inbox,
            outbox,
            public_key: None,
        }
    }

    /// The system actor of this instance: a person named "fediplace" with the user name
    /// "system", at `@system` on the local host, with its inbox and outbox below it and no
    /// public key. `None` where the URL parser refuses one of the three addresses.
    pub fn system() -> (r: Option<Actor>)
        ensures
            r is Some <==> {
                &&& url_serialization(address_text(local_host(), "@system"@)) is Some
                &&& url_serialization(address_text(local_host(), "@system/inbox"@)) is Some
                &&& url_serialization(address_text(local_host(), "@system/outbox"@)) is Some
            },
            r matches Some(a) ==> system_actor_with(
                url_serialization(address_text(local_host(), "@system"@))->0,
                url_serialization(address_text(local_host(), "@system/inbox"@))->0,
                url_serialization(address_text(local_host(), "@system/outbox"@))->0,
                a,
            ),
    {
        let host = "http://localhost:8000";
        let id = parse_url(address(host, "@system").as_str());
        let inbox = parse_url(address(host, "@system/inbox").as_str());
        let outbox = parse_url(address(host, "@system/outbox").as_str());
        match (id, inbox, outbox) {
            (Some(id), Some(inbox), Some(outbox)) => Some(Actor::system_at(id, inbox, outbox)),
            _ => None,
        }
    }
}

} // verus!
