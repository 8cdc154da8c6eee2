//! The live preview: the messages sent to connected clients, the registry of
//! those clients, and what the development server adds to the pages it serves.

use crate::text::{
    chars_of, chained, decimal, decimal_of, replace_all, replaced, same_text, string_of,
    text_of_utf8,
};
use crate::watcher::ConfigError;
use vstd::prelude::*;
use vstd::string::StringExecFns;
use vstd::utf8::{decode_utf8, valid_utf8};

verus! {

/// What the development server tells a client.
pub enum ClientMessage {
    /// The answer to a client's greeting.
    Handshake,
    /// The client should load its page again.
    Reload,
    /// The client should load the page at this path, given from the served
    /// root with forward slashes.
    Navigate(String),
}

/// The mathematical value of a `ClientMessage`.
pub enum MessageView {
    Handshake,
    Reload,
    Navigate(Seq<char>),
}

impl View for ClientMessage {
    type V = MessageView;

    open spec fn view(&self) -> MessageView {
        match self {
            ClientMessage::Handshake => MessageView::Handshake,
            ClientMessage::Reload => MessageView::Reload,
            ClientMessage::Navigate(path) => MessageView::Navigate(path@),
        }
    }
}

/// A message as the JSON object that goes over the wire: an `action`, and for
/// a navigation the path as `payload`, written as it is.
pub open spec fn json_of(message: MessageView) -> Seq<char> {
    match message {
        MessageView::Handshake => "{\"action\":\"hello\"}"@,
        MessageView::Reload => "{\"action\":\"reload\"}"@,
        MessageView::Navigate(path) => "{\"action\":\"navigate\", \"payload\":\""@ + path
            + "\"}"@,
    }
}

/// A message as it is named in the log.
pub open spec fn label_of(message: MessageView) -> Seq<char> {
    match message {
        MessageView::Handshake => "Handshake"@,
        MessageView::Reload => "Reload"@,
        MessageView::Navigate(path) => "Navigate:"@ + path,
    }
}

impl ClientMessage {
    /// The message as the JSON object that goes over the wire.
    pub fn to_json(&self) -> (out: String)
        ensures
            out@ == json_of(self@),
    {
        match self {
            ClientMessage::Handshake => String::from_str("{\"action\":\"hello\"}"),
            ClientMessage::Reload => String::from_str("{\"action\":\"reload\"}"),
            ClientMessage::Navigate(path) => {
                let mut out = String::from_str("{\"action\":\"navigate\", \"payload\":\"");
                out.append(path.as_str());
                out.append("\"}");
                out
            },
        }
    }

    /// The message as it is named in the log.
    pub fn to_string(&self) -> (out: String)
        ensures
            out@ == label_of(self@),
    {
        match self {
            ClientMessage::Handshake => String::from_str("Handshake"),
            ClientMessage::Reload => String::from_str("Reload"),
            ClientMessage::Navigate(path) => {
                let mut out = String::from_str("Navigate:");
                out.append(path.as_str());
                out
            },
        }
    }
}

/// What a served file says of its content type.
pub enum ContentType {
    /// The file names no content type.
    Absent,
    /// The file names one that is not text.
    Unreadable,
    /// The content type that the file names.
    Named(String),
}

/// The end of a page's body.
pub open spec fn body_end() -> Seq<char> {
    "</body>"@
}

/// What stands for the end of a page's body once the reference to the uplink
/// script is set in.
pub open spec fn body_end_with_uplink() -> Seq<char> {
    "\n        </body>\n        <script type=\"text/javascript\" src=\"http://localhost:4200/uplink.js\"></script>\n    "@
}

/// Whether the uplink script is set into a file with this content type: into
/// one that names `text/html`, and into one that names none.
pub open spec fn takes_uplink(content_type: ContentType) -> bool {
    match content_type {
        ContentType::Absent => true,
        ContentType::Unreadable => false,
        ContentType::Named(name) => name@ == "text/html"@,
    }
}

/// The page with a reference to the uplink script after each end of its
/// body, or `None` where the file is served as it is: where its content type
/// takes no script, or its bytes are no text.
pub open spec fn with_uplink(content_type: ContentType, body: Seq<u8>) -> Option<Seq<char>> {
    if takes_uplink(content_type) && valid_utf8(body) {
        Some(replaced(decode_utf8(body), body_end(), body_end_with_uplink()))
    } else {
        None
    }
}

/// For a page served by the development server, sets a reference to the
/// uplink script after the end of its body. `None` where the file is to be
/// served as it is.
pub fn inject_uplink(content_type: &ContentType, body: Vec<u8>) -> (out: Option<String>)
    ensures
        match out {
            Some(page) => with_uplink(*content_type, body@) == Some(page@),
            None => with_uplink(*content_type, body@) is None,
        },
{
    let takes = match content_type {
        ContentType::Absent => true,
        ContentType::Unreadable => false,
        ContentType::Named(name) => {
            let html = String::from_str("text/html");
            *name == html
        },
    };
    if !takes {
        return None;
    }
    match text_of_utf8(body) {
        Some(content) => {
            let page = replace_all(
                &chars_of(content.as_str()),
                &chars_of("</body>"),
                &chars_of(
                    "\n        </body>\n        <script type=\"text/javascript\" src=\"http://localhost:4200/uplink.js\"></script>\n    ",
                ),
            );
            Some(string_of(&page))
        },
        None => None,
    }
}

/// What the development server does once it is started: the port it serves
/// on, and the address to open in a browser, if any, with the time to wait
/// before opening it.
pub struct ServePlan {
    pub port: u16,
    pub browse: Option<String>,
    pub browse_delay_ms: u64,
}

/// The address of a page of the development server: the local host at the
/// given port, with the given path, or the root where none is given.
pub open spec fn local_url(port: u16, root_url: Option<Seq<char>>) -> Seq<char> {
    "http://localhost:"@ + decimal(port as nat) + match root_url {
        Some(path) => path,
        None => "/"@,
    }
}

/// The address of a page of the development server.
pub fn browse_url(port: u16, root_url: &Option<String>) -> (out: String)
    ensures
        out@ == local_url(port, crate::metadata::text_view(*root_url)),
{
    let host = chars_of("http://localhost:");
    let at_port = chained(&host, &decimal_of(port));
    let path = match root_url {
        Some(path) => chars_of(path.as_str()),
        None => chars_of("/"),
    };
    string_of(&chained(&at_port, &path))
}

/// A client connected to the live preview: its identifier and the channel on
/// which messages for it are handed over. A client without a channel takes
/// no messages.
pub struct Client<S> {
    pub id: String,
    pub sender: Option<S>,
}

/// The mathematical value of a `Client`.
pub struct ClientView<S> {
    pub id: Seq<char>,
    pub sender: Option<S>,
}

impl<S> View for Client<S> {
    type V = ClientView<S>;

    open spec fn view(&self) -> ClientView<S> {
        ClientView { id: self.id@, sender: self.sender }
    }
}

/// One message to hand to one client's channel.
pub struct Delivery<'a, S> {
    pub id: &'a String,
    pub sender: &'a S,
    pub text: String,
}

/// Whether no identifier occurs twice among the clients.
pub open spec fn distinct_ids<S>(clients: Seq<ClientView<S>>) -> bool {
    forall|i: int, j: int|
        0 <= i < j < clients.len() ==> (#[trigger] clients[i]).id != (#[trigger] clients[j]).id
}

/// Whether a client with this identifier is among the clients.
pub open spec fn has_client<S>(clients: Seq<ClientView<S>>, id: Seq<char>) -> bool {
    exists|i: int| 0 <= i < clients.len() && (#[trigger] clients[i]).id == id
}

/// Those of the first `upto` clients that take messages, in order.
pub open spec fn receivers<S>(clients: Seq<ClientView<S>>, upto: int) -> Seq<ClientView<S>>
    decreases upto,
{
    if upto <= 0 || upto > clients.len() {
        seq![]
    } else if clients[upto - 1].sender is Some {
        receivers(clients, upto - 1).push(clients[upto - 1])
    } else {
        receivers(clients, upto - 1)
    }
}

/// Whether a delivery hands `text` to the channel of `client`.
pub open spec fn delivers<S>(delivery: Delivery<S>, client: ClientView<S>, text: Seq<char>) -> bool {
    &&& delivery.id@ == client.id
    &&& client.sender == Some(*delivery.sender)
    &&& delivery.text@ == text
}

/// The development server's registry of connected clients, in the order in
/// which they were registered. No identifier occurs twice in it.
pub struct DevServer<S> {
    clients: Vec<Client<S>>,
}

impl<S> View for DevServer<S> {
    type V = Seq<ClientView<S>>;

    closed spec fn view(&self) -> Seq<ClientView<S>> {
        Seq::new(self.clients@.len(), |i: int| self.clients@[i]@)
    }
}

impl<S> DevServer<S> {
    #[verifier::type_invariant]
    spec fn well_formed(self) -> bool {
        distinct_ids(self@)
    }

    /// A registry without clients.
    pub fn new() -> (out: DevServer<S>)
        ensures
            out@ == Seq::<ClientView<S>>::empty(),
    {
        let out = DevServer { clients: Vec::new() };
        proof {
            assert(out@ =~= Seq::<ClientView<S>>::empty());
        }
        out
    }

    /// Where the client with this identifier stands in the registry.
    fn position(&self, id: &str) -> (at: Option<usize>)
        ensures
            match at {
                Some(i) => i < self@.len() && self@[i as int].id == id@,
                None => !has_client(self@, id@),
            },
    {
        let mut i: usize = 0;
        while i < self.clients.len()
            invariant
                i <= self.clients.len(),
                forall|k: int| 0 <= k < i ==> (#[trigger] self@[k]).id != id@,
            decreases self.clients.len() - i,
        {
            if same_text(self.clients[i].id.as_str(), id) {
                return Some(i);
            }
            i += 1;
        }
        None
    }

    /// Registers a client under an identifier. A client that was registered
    /// under the same identifier gives way to the new one, which takes its
    /// place; else the new client comes last.
    pub fn insert(&mut self, id: String, sender: Option<S>)
        ensures
            distinct_ids(final(self)@),
            has_client(final(self)@, id@),
            !has_client(old(self)@, id@) ==> final(self)@ == old(self)@.push(
                ClientView { id: id@, sender },
            ),
            forall|i: int|
                0 <= i < old(self)@.len() && (#[trigger] old(self)@[i]).id == id@ ==> final(self)@
                    == old(self)@.update(i, ClientView { id: id@, sender }),
    {
        proof {
            use_type_invariant(&*self);
        }
        let ghost added = ClientView { id: id@, sender };
        let at = self.position(id.as_str());
        let mut held: Vec<Client<S>> = Vec::new();
        proof {
            assert(Seq::new(held@.len(), |i: int| held@[i]@) =~= Seq::<ClientView<S>>::empty());
        }
        core::mem::swap(&mut self.clients, &mut held);
        match at {
            Some(i) => {
                held.set(i, Client { id, sender });
            },
            None => {
                held.push(Client { id, sender });
            },
        }
        proof {
            let after = Seq::new(held@.len(), |k: int| held@[k]@);
            match at {
                Some(i) => {
                    assert(after =~= old(self)@.update(i as int, added));
                    assert(after[i as int].id == added.id);
                    assert forall|j: int|
                        0 <= j < old(self)@.len() && (#[trigger] old(self)@[j]).id
                            == id@ implies j == i by {
                        if j < i {
                            assert(old(self)@[j].id != old(self)@[i as int].id);
                        } else if i < j {
                            assert(old(self)@[i as int].id != old(self)@[j].id);
                        }
                    }
                },
                None => {
                    assert(after =~= old(self)@.push(added));
                    assert(after[after.len() - 1].id == added.id);
                },
            }
            assert(distinct_ids(after));
        }
        core::mem::swap(&mut self.clients, &mut held);
    }

    /// Takes the client with this identifier out of the registry. Where there
    /// is none the registry stays as it is.
    pub fn remove(&mut self, id: &str)
        ensures
            distinct_ids(final(self)@),
            !has_client(final(self)@, id@),
            !has_client(old(self)@, id@) ==> final(self)@ == old(self)@,
            forall|i: int|
                0 <= i < old(self)@.len() && (#[trigger] old(self)@[i]).id == id@ ==> final(self)@
                    == old(self)@.remove(i),
    {
        proof {
            use_type_invariant(&*self);
        }
        match self.position(id) {
            Some(i) => {
                proof {
                    assert forall|j: int|
                        0 <= j < old(self)@.len() && (#[trigger] old(self)@[j]).id
                            == id@ implies j == i by {
                        if j < i {
                            assert(old(self)@[j].id != old(self)@[i as int].id);
                        } else if i < j {
                            assert(old(self)@[i as int].id != old(self)@[j].id);
                        }
                    }
                }
                let mut held: Vec<Client<S>> = Vec::new();
                proof {
                    assert(Seq::new(held@.len(), |k: int| held@[k]@) =~= Seq::<
                        ClientView<S>,
                    >::empty());
                }
                core::mem::swap(&mut self.clients, &mut held);
                held.remove(i);
                proof {
                    let after = Seq::new(held@.len(), |k: int| held@[k]@);
                    assert(after =~= old(self)@.remove(i as int));
                    assert forall|k: int| 0 <= k < after.len() implies (#[trigger] after[k]).id
                        != id@ by {
                        if k < i {
                            assert(old(self)@[k].id != old(self)@[i as int].id);
                        } else {
                            assert(old(self)@[i as int].id != old(self)@[k + 1].id);
                        }
                    }
                    assert forall|a: int, b: int| 0 <= a < b < after.len() implies (
                    #[trigger] after[a]).id != (#[trigger] after[b]).id by {
                        let x = if a < i { a } else { a + 1 };
                        let y = if b < i { b } else { b + 1 };
                        assert(old(self)@[x].id != old(self)@[y].id);
                    }
                }
                core::mem::swap(&mut self.clients, &mut held);
            },
            None => {},
        }
    }

    /// Registers a newly connected client under a fresh identifier, which is
    /// returned.
    pub fn register(&mut self, sender: S) -> (id: String)
        ensures
            distinct_ids(final(self)@),
            has_client(final(self)@, id@),
            !has_client(old(self)@, id@) ==> final(self)@ == old(self)@.push(
                ClientView { id: id@, sender: Some(sender) },
            ),
            forall|i: int|
                0 <= i < old(self)@.len() && (#[trigger] old(self)@[i]).id == id@ ==> final(self)@
                    == old(self)@.update(i, ClientView { id: id@, sender: Some(sender) }),
    {
        let id = new_client_id();
        self.insert(id.clone(), Some(sender));
        id
    }

    /// Starts the development server on the content of a root directory:
    /// says on which port to serve and, with `open_in_browser`, which address
    /// to open after five seconds. A root that does not exist is refused.
    pub fn serve(
        &self,
        root_exists: bool,
        port: u16,
        open_in_browser: bool,
        root_url: Option<String>,
    ) -> (out: Result<ServePlan, ConfigError>)
        ensures
            match out {
                Ok(plan) => root_exists && plan.port == port && plan.browse_delay_ms == 5000
                    && crate::metadata::text_view(plan.browse) == if open_in_browser {
                    Some(local_url(port, crate::metadata::text_view(root_url)))
                } else {
                    None
                },
                Err(e) => !root_exists && e == ConfigError::RootMissing,
            },
    {
        if !root_exists {
            return Err(ConfigError::RootMissing);
        }
        let browse = if open_in_browser {
            Some(browse_url(port, &root_url))
        } else {
            None
        };
        Ok(ServePlan { port, browse, browse_delay_ms: 5000 })
    }

    /// The identifiers of the registered clients, in order.
    pub fn clients(&self) -> (out: Vec<String>)
        ensures
            distinct_ids(self@),
            out@.len() == self@.len(),
            forall|i: int| 0 <= i < out@.len() ==> (#[trigger] out@[i])@ == self@[i].id,
    {
        proof {
            use_type_invariant(self);
        }
        let mut out: Vec<String> = Vec::new();
        let mut i: usize = 0;
        while i < self.clients.len()
            invariant
                i <= self.clients.len(),
                out@.len() == i,
                forall|k: int| 0 <= k < i ==> (#[trigger] out@[k])@ == self@[k].id,
            decreases self.clients.len() - i,
        {
            out.push(self.clients[i].id.clone());
            i += 1;
        }
        out
    }
}

/// A broadcast reaches the registered clients that take messages and no one
/// else: each such client is among the receivers, and each receiver is such a
/// client.
pub proof fn lemma_receivers_are_the_registered<S>(clients: Seq<ClientView<S>>, upto: int)
    requires
        0 <= upto <= clients.len(),
    ensures
        forall|i: int|
            0 <= i < upto && (#[trigger] clients[i]).sender is Some ==> receivers(
                clients,
                upto,
            ).contains(clients[i]),
        forall|k: int|
            0 <= k < receivers(clients, upto).len() ==> (#[trigger] receivers(
                clients,
                upto,
            )[k]).sender is Some && has_client(clients, receivers(clients, upto)[k].id),
        receivers(clients, upto).len() <= upto,
    decreases upto,
{
    if upto > 0 {
        lemma_receivers_are_the_registered(clients, upto - 1);
        let before = receivers(clients, upto - 1);
        let all = receivers(clients, upto);
        let last = clients[upto - 1];
        if last.sender is Some {
            assert(all == before.push(last));
            assert(all[all.len() - 1] == last);
            assert forall|i: int|
                0 <= i < upto && (#[trigger] clients[i]).sender is Some implies all.contains(
                clients[i],
            ) by {
                if i < upto - 1 {
                    let k = choose|k: int| 0 <= k < before.len() && before[k] == clients[i];
                    assert(all[k] == clients[i]);
                }
            }
            assert forall|k: int| 0 <= k < all.len() implies (#[trigger] all[k]).sender is Some
                && has_client(clients, all[k].id) by {
                if k < before.len() {
                    assert(all[k] == before[k]);
                } else {
                    assert(clients[upto - 1].id == all[k].id);
                }
            }
        } else {
            assert(all == before);
        }
    }
}

/// A client that is not in the registry, such as one that has left it, gets
/// nothing of a broadcast.
pub proof fn lemma_absent_client_gets_nothing<S>(clients: Seq<ClientView<S>>, id: Seq<char>)
    requires
        !has_client(clients, id),
    ensures
        forall|k: int|
            0 <= k < receivers(clients, clients.len() as int).len() ==> (#[trigger] receivers(
                clients,
                clients.len() as int,
            )[k]).id != id,
{
    lemma_receivers_are_the_registered(clients, clients.len() as int);
}

/// Whether `client` is one of the first `upto` clients.
pub open spec fn is_among<S>(clients: Seq<ClientView<S>>, upto: int, client: ClientView<S>) -> bool {
    exists|i: int| 0 <= i < upto && #[trigger] clients[i] == client
}

/// In a registry in which no identifier occurs twice, no client gets a
/// broadcast twice: the receivers' identifiers differ one from another.
pub proof fn lemma_each_receiver_once<S>(clients: Seq<ClientView<S>>, upto: int)
    requires
        0 <= upto <= clients.len(),
        distinct_ids(clients),
    ensures
        distinct_ids(receivers(clients, upto)),
        forall|k: int|
            0 <= k < receivers(clients, upto).len() ==> is_among(
                clients,
                upto,
                #[trigger] receivers(clients, upto)[k],
            ),
    decreases upto,
{
    if upto > 0 {
        lemma_each_receiver_once(clients, upto - 1);
        let before = receivers(clients, upto - 1);
        let all = receivers(clients, upto);
        let last = clients[upto - 1];
        if last.sender is Some {
            assert(all == before.push(last));
            assert forall|k: int| 0 <= k < all.len() implies is_among(
                clients,
                upto,
                #[trigger] all[k],
            ) by {
                if k < before.len() {
                    assert(all[k] == before[k]);
                    assert(is_among(clients, upto - 1, before[k]));
                    let i = choose|i: int| 0 <= i < upto - 1 && #[trigger] clients[i] == before[k];
                    assert(clients[i] == all[k]);
                } else {
                    assert(clients[upto - 1] == all[k]);
                }
            }
            assert forall|a: int, b: int| 0 <= a < b < all.len() implies (#[trigger] all[a]).id != (
            #[trigger] all[b]).id by {
                assert(all[a] == before[a]);
                if b < before.len() {
                    assert(all[b] == before[b]);
                } else {
                    assert(is_among(clients, upto - 1, before[a]));
                    let i = choose|i: int| 0 <= i < upto - 1 && #[trigger] clients[i] == before[a];
                    assert(clients[i].id != clients[upto - 1].id);
                }
            }
        } else {
            assert(all == before);
            assert forall|k: int| 0 <= k < all.len() implies is_among(
                clients,
                upto,
                #[trigger] all[k],
            ) by {
                assert(is_among(clients, upto - 1, before[k]));
                let i = choose|i: int| 0 <= i < upto - 1 && #[trigger] clients[i] == before[k];
                assert(clients[i] == all[k]);
            }
        }
    }
}

/// A fresh identifier for a client.
///
/// Trusted: this is `uuid::Uuid::new_v4` with `to_string` of the value: a
/// random identifier, of which nothing is claimed.
#[verifier::external_body]
fn new_client_id() -> String {
    uuid::Uuid::new_v4().to_string()
}

/// Sends a message to the connected clients: one delivery for each client
/// that takes messages, in the order of the registry, each with the message
/// as JSON.
pub fn send_message<'a, S>(clients: &'a DevServer<S>, message: &ClientMessage) -> (out: Vec<
    Delivery<'a, S>,
>)
    ensures
        distinct_ids(clients@),
        out@.len() == receivers(clients@, clients@.len() as int).len(),
        forall|k: int|
            0 <= k < out@.len() ==> delivers(
                #[trigger] out@[k],
                receivers(clients@, clients@.len() as int)[k],
                json_of(message@),
            ),
{
    proof {
        use_type_invariant(clients);
    }
    let mut out: Vec<Delivery<'a, S>> = Vec::new();
    let mut i: usize = 0;
    while i < clients.clients.len()
        invariant
            i <= clients.clients.len(),
            out@.len() == receivers(clients@, i as int).len(),
            forall|k: int|
                0 <= k < out@.len() ==> delivers(
                    #[trigger] out@[k],
                    receivers(clients@, i as int)[k],
                    json_of(message@),
                ),
        decreases clients.clients.len() - i,
    {
        let client = &clients.clients[i];
        proof {
            assert(clients@[i as int] == client@);
        }
        match &client.sender {
            Some(sender) => {
                out.push(Delivery { id: &client.id, sender, text: message.to_json() });
            },
            None => {},
        }
        i += 1;
    }
    out
}

/// Answers whatever a client sends with the handshake: one delivery to that
/// client, where it is registered and takes messages.
pub fn client_msg<'a, S>(id: &str, clients: &'a DevServer<S>) -> (out: Option<Delivery<'a, S>>)
    ensures
        match out {
            Some(delivery) => delivery.id@ == id@ && exists|i: int|
                0 <= i < clients@.len() && delivers(
                    delivery,
                    #[trigger] clients@[i],
                    json_of(MessageView::Handshake),
                ),
            None => forall|i: int|
                0 <= i < clients@.len() && (#[trigger] clients@[i]).id == id@ ==> clients@[i].sender
                    is None,
        },
{
    match clients.position(id) {
        Some(i) => {
            let client = &clients.clients[i];
            proof {
                use_type_invariant(clients);
                assert(clients@[i as int] == client@);
            }
            match &client.sender {
                Some(sender) => Some(
                    Delivery { id: &client.id, sender, text: ClientMessage::Handshake.to_json() },
                ),
                None => {
                    proof {
                        assert forall|k: int|
                            0 <= k < clients@.len() && (#[trigger] clients@[k]).id
                                == id@ implies clients@[k].sender is None by {
                            if k < i {
                                assert(clients@[k].id != clients@[i as int].id);
                            } else if i < k {
                                assert(clients@[i as int].id != clients@[k].id);
                            }
                        }
                    }
                    None
                },
            }
        },
        None => None,
    }
}

} // verus!
