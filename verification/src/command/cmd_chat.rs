//! `chat`: a peer-to-peer chat room.  The network and the terminal are the
//! application's; this module holds what the chat decides and composes:
//! the user record, the lookup in the user database, what each event of the
//! session leads to, and the texts it shows.
use vstd::prelude::*;
use vstd::utf8::{decode_utf8, valid_utf8};
use super::cmd::{ActionView, Cmd, CmdAction};
use crate::text::{concat_text, trim, trim_text};

verus! {

/// The built-in that opens the chat.
pub struct CmdChat {
    pub name: String,
}

impl Cmd for CmdChat {
    open spec fn name_text(&self) -> Seq<char> {
        self.name@
    }

    /// The chat takes no arguments and ignores any it is given.
    open spec fn planned(&self, args: Seq<Seq<char>>) -> ActionView {
        ActionView::StartChat { name: self.name@ }
    }

    open spec fn error_text(&self) -> Seq<char> {
        self.name@ + ": nothing"@
    }

    fn execute(&self, args: &Vec<&str>) -> (r: CmdAction)
        ensures
            r@ == (ActionView::StartChat { name: self.name@ }),
    {
        CmdAction::StartChat { name: self.name.clone() }
    }

    fn error_handling(&self) -> (r: String)
        ensures
            r@ == self.name@ + ": nothing"@,
    {
        concat_text(self.name.as_str(), ": nothing")
    }

    fn get_cmd_name(&self) -> (r: &str) {
        self.name.as_str()
    }
}

impl CmdChat {
    /// The report once the chat session is over: `Good` when it ended
    /// well, else the command's name and the failure.
    pub fn outcome_report(&self, failure: Option<&str>) -> (r: String)
        ensures
            match failure {
                None => r@ == "Good"@,
                Some(e) => r@ == self.name@ + ": "@ + e@,
            },
    {
        match failure {
            None => "Good".to_owned(),
            Some(e) => {
                let head = concat_text(self.name.as_str(), ": ");
                concat_text(head.as_str(), e)
            },
        }
    }
}

/// A participant of the chat: the peer's id and the nickname it shows, as
/// UTF-8 bytes.
pub struct User {
    pub peer_id: String,
    pub nickname: Vec<u8>,
}

/// The outcome of one attempt to read the nickname.
pub enum NicknameOutcome {
    /// Nothing was read: show `notice` and ask again.
    Retry { notice: String },
    /// The user, with the nickname that was read.
    Accepted(User),
}

/// The nickname made of the text typed: the text without surrounding
/// whitespace, as UTF-8 bytes.
pub open spec fn user_nickname(line: Seq<char>) -> Seq<u8> {
    vstd::utf8::encode_utf8(trim(line))
}

/// One attempt to read the nickname: `bytes_read` is how many bytes the
/// read gave, `line` all that has been read so far.  A nickname must not be
/// empty: when nothing was read, or the text read is only whitespace, the
/// notice is shown and the nickname asked again; otherwise the user is made.
pub fn init_user_step(bytes_read: usize, peer_id: &String, line: &str) -> (r: NicknameOutcome)
    ensures
        match r {
            NicknameOutcome::Retry { notice } => (bytes_read == 0 || trim(line@).len() == 0)
                && notice@ == "[init_user] nickname should be larger than zero."@,
            NicknameOutcome::Accepted(u) => bytes_read > 0 && trim(line@).len() > 0 && u.peer_id@
                == peer_id@ && u.nickname@ == user_nickname(line@),
        },
        r matches NicknameOutcome::Accepted(u) ==> u.nickname@ == vstd::utf8::encode_utf8(
            trim(line@),
        ),
{
    let nick = trim_text(line);
    if bytes_read == 0 || nick.unicode_len() == 0 {
        NicknameOutcome::Retry {
            notice: "[init_user] nickname should be larger than zero.".to_owned(),
        }
    } else {
        let bytes = vstd::slice::slice_to_vec(nick.as_bytes());
        NicknameOutcome::Accepted(User { peer_id: peer_id.clone(), nickname: bytes })
    }
}

/// Why the user database could not be used.
#[derive(PartialEq, Eq, Structural)]
pub enum UserDbError {
    /// The record on this line (counting from 0) could not be read.
    BadRecord { line: usize },
    /// The record could not be written as JSON.
    Serialize,
}

/// The first record that decides a lookup of `target`: one that could not
/// be read, or one of that peer.
pub open spec fn deciding_record(records: Seq<Option<User>>, target: Seq<char>, i: int) -> bool {
    match records[i] {
        None => true,
        Some(u) => u.peer_id@ == target,
    }
}

/// A record decides a lookup exactly when it could not be read or it is the
/// peer's own.
pub proof fn lemma_deciding_record(records: Seq<Option<User>>, target: Seq<char>, i: int)
    requires
        0 <= i < records.len(),
    ensures
        deciding_record(records, target, i) <==> (records[i] is None || (records[i] matches Some(
            u,
        ) && u.peer_id@ == target)),
{
}

/// Looks `target_id` up in the user database, read record by record;
/// `None` stands for a record that could not be read.  The records are
/// taken in order: the first one that is unreadable fails the lookup, the
/// first one of the peer is the answer, and without either the peer is
/// unknown.
pub fn find_user(records: Vec<Option<User>>, target_id: &str) -> (r: Result<
    Option<User>,
    UserDbError,
>)
    ensures
        match r {
            Ok(None) => forall|i: int|
                0 <= i < records@.len() ==> !deciding_record(records@, target_id@, i),
            Ok(Some(u)) => exists|i: int|
                0 <= i < records@.len() && (forall|j: int|
                    0 <= j < i ==> !deciding_record(records@, target_id@, j)) && records@[i]
                    == Some(u) && u.peer_id@ == target_id@,
            Err(UserDbError::BadRecord { line }) => line < records@.len() && (forall|j: int|
                0 <= j < line ==> !deciding_record(records@, target_id@, j)) && records@[line
                as int] is None,
            Err(UserDbError::Serialize) => false,
        },
        r matches Ok(None) ==> forall|i: int|
            0 <= i < records@.len() ==> (#[trigger] records@[i] matches Some(v) && v.peer_id@
                != target_id@),
        r matches Ok(Some(u)) ==> exists|i: int|
            0 <= i < records@.len() && records@[i] == Some(u) && u.peer_id@ == target_id@ && (
            forall|j: int|
                0 <= j < i ==> (#[trigger] records@[j] matches Some(v) && v.peer_id@ != target_id@)),
        r matches Err(UserDbError::BadRecord { line }) ==> line < records@.len() && records@[line
            as int] is None && (forall|j: int|
            0 <= j < line ==> (#[trigger] records@[j] matches Some(v) && v.peer_id@ != target_id@)),
{
    let n = records.len();
    let mut i: usize = 0;
    while i < n && !record_decides(&records, i, target_id)
        invariant
            n == records@.len(),
            i <= n,
            forall|j: int| 0 <= j < i ==> !deciding_record(records@, target_id@, j),
        decreases n - i,
    {
        i = i + 1;
    }
    proof {
        assert forall|j: int| 0 <= j < i implies (#[trigger] records@[j] matches Some(v) && v.peer_id@
            != target_id@) by {
            lemma_deciding_record(records@, target_id@, j);
        }
    }
    if i == n {
        return Ok(None);
    }
    proof {
        lemma_deciding_record(records@, target_id@, i as int);
    }
    let mut records = records;
    let rec = records.remove(i);
    match rec {
        None => Err(UserDbError::BadRecord { line: i }),
        Some(u) => Ok(Some(u)),
    }
}

/// Whether record `i` decides a lookup of `target_id`.
fn record_decides(records: &Vec<Option<User>>, i: usize, target_id: &str) -> (r: bool)
    requires
        i < records@.len(),
    ensures
        r == deciding_record(records@, target_id@, i as int),
{
    match &records[i] {
        None => true,
        Some(u) => crate::text::same_text(u.peer_id.as_str(), target_id),
    }
}

#[verifier::external_type_specification]
#[verifier::external_body]
pub struct ExJsonError(serde_json::Error);

/// What `serde_json` writes for a string: the JSON string literal.
pub uninterp spec fn json_text(s: Seq<char>) -> Seq<char>;

/// The characters that `serde_json` escapes in a string: the quote, the
/// backslash and the control characters below U+0020.
pub open spec fn json_escaped_char(c: char) -> bool {
    c == '\u{22}' || c == '\\' || (c as u32) < 0x20
}

/// `serde_json::to_string` on a string.  Claimed: it succeeds (the string is
/// written into a `Vec`, which cannot fail), the text depends on the string
/// alone (named `json_text`), and a string without characters to escape is
/// written between two quotes as it is.  Not claimed: how the escaped
/// characters are written.
#[verifier::external_body]
fn json_string(s: &String) -> (r: Result<String, serde_json::Error>)
    ensures
        r is Ok,
        r matches Ok(t) ==> t@ == json_text(s@),
        r matches Ok(t) ==> ((forall|i: int|
            0 <= i < s@.len() ==> !json_escaped_char(#[trigger] s@[i])) ==> t@ == seq!['\u{22}']
            + s@ + seq!['\u{22}']),
{
    serde_json::to_string(s)
}

/// The record of a peer in the user database: its id as a JSON string.
pub fn user_db_record(peer_id: &String) -> (r: Result<String, UserDbError>)
    ensures
        r matches Ok(t) && t@ == json_text(peer_id@),
        (forall|i: int| 0 <= i < peer_id@.len() ==> !json_escaped_char(#[trigger] peer_id@[i]))
            ==> (r matches Ok(t) && t@ == seq!['\u{22}'] + peer_id@ + seq!['\u{22}']),
{
    user_db_record_from(json_string(peer_id))
}

/// The record made of what the JSON writer gave: its text, or
/// [`UserDbError::Serialize`] when it failed.
pub fn user_db_record_from(written: Result<String, serde_json::Error>) -> (r: Result<
    String,
    UserDbError,
>)
    ensures
        match written {
            Ok(t) => r matches Ok(u) && u@ == t@,
            Err(_) => r == Err::<String, UserDbError>(UserDbError::Serialize),
        },
{
    match written {
        Ok(t) => Ok(t),
        Err(_) => Err(UserDbError::Serialize),
    }
}

/// What `String::from_utf8_lossy` gives for some bytes.
pub uninterp spec fn lossy_text(bytes: Seq<u8>) -> Seq<char>;

/// `String::from_utf8_lossy`, made an owned string.  Claimed: the text
/// depends on the bytes alone (named `lossy_text`), and bytes that are
/// valid UTF-8 are decoded as they are.  Not claimed: what replaces invalid
/// sequences.
#[verifier::external_body]
fn utf8_lossy(bytes: &[u8]) -> (r: String)
    ensures
        r@ == lossy_text(bytes@),
        valid_utf8(bytes@) ==> r@ == decode_utf8(bytes@),
{
    String::from_utf8_lossy(bytes).into_owned()
}

/// How a received chat message is shown: the sender, a colon, and the
/// message's bytes read as UTF-8.
pub fn render_chat_message(source: &str, data: &[u8]) -> (r: String)
    ensures
        r@ == source@ + ": "@ + lossy_text(data@),
        valid_utf8(data@) ==> r@ == source@ + ": "@ + decode_utf8(data@),
{
    let text = utf8_lossy(data);
    chat_line(source, text.as_str())
}

/// The line shown for a message: the sender, a colon and a space, and the
/// message's text.
pub fn chat_line(source: &str, text: &str) -> (r: String)
    ensures
        r@ == source@ + ": "@ + text@,
{
    let head = concat_text(source, ": ");
    concat_text(head.as_str(), text)
}

#[verifier::external_type_specification]
#[verifier::external_body]
pub struct ExMultiaddrError(libp2p::multiaddr::Error);

/// The encoding of the network address written as `text`, when `text` is
/// one.
pub uninterp spec fn multiaddr_bytes(text: Seq<char>) -> Option<Seq<u8>>;

/// `Multiaddr::from_str`, the address handed back as its encoding
/// (`Multiaddr::to_vec`).  Claimed: the outcome depends on the text alone
/// (named `multiaddr_bytes`): the parse succeeds exactly when the name
/// gives an encoding, and then gives that encoding.  Not claimed: which
/// texts are addresses, nor how they are encoded.
#[verifier::external_body]
fn multiaddr_encode(text: &str) -> (r: Result<Vec<u8>, libp2p::multiaddr::Error>)
    ensures
        r is Ok <==> multiaddr_bytes(text@) is Some,
        r matches Ok(b) ==> multiaddr_bytes(text@) == Some(b@),
{
    match text.parse::<libp2p::Multiaddr>() {
        Ok(a) => Ok(a.to_vec()),
        Err(e) => Err(e),
    }
}

/// Why the chat session could not be set up.
pub enum ChatSetupError {
    /// A text that was to be a network address is not one.
    BadAddress(libp2p::multiaddr::Error),
}

/// The address to dial made of what the parser gave.
pub fn dial_target_from(parsed: Result<Vec<u8>, libp2p::multiaddr::Error>) -> (r: Result<
    Option<Vec<u8>>,
    ChatSetupError,
>)
    ensures
        match parsed {
            Ok(a) => r matches Ok(Some(b)) && b@ == a@,
            Err(e) => r matches Err(ChatSetupError::BadAddress(f)) && f == e,
        },
{
    match parsed {
        Ok(a) => Ok(Some(a)),
        Err(e) => Err(ChatSetupError::BadAddress(e)),
    }
}

/// The peer to reach when the session starts: the encoded address given on
/// the command line, if any.  No address means no peer to dial; a text that
/// is not an address fails the setup.
pub fn dial_target(arg: Option<String>) -> (r: Result<Option<Vec<u8>>, ChatSetupError>)
    ensures
        arg is None ==> r matches Ok(None),
        arg matches Some(s) ==> (r matches Ok(Some(_)) <==> multiaddr_bytes(s@) is Some),
        arg matches Some(s) ==> (r is Err <==> multiaddr_bytes(s@) is None),
        arg matches Some(s) ==> (r matches Ok(Some(b)) ==> multiaddr_bytes(s@) == Some(b@)),
{
    match arg {
        None => Ok(None),
        Some(s) => dial_target_from(multiaddr_encode(s.as_str())),
    }
}

/// The encoded address the chat listens on: every interface, on a port the
/// system picks.
pub fn listen_address() -> (r: Result<Vec<u8>, ChatSetupError>)
    ensures
        r is Ok <==> multiaddr_bytes("/ip4/0.0.0.0/tcp/0"@) is Some,
        r matches Ok(b) ==> multiaddr_bytes("/ip4/0.0.0.0/tcp/0"@) == Some(b@),
{
    match multiaddr_encode("/ip4/0.0.0.0/tcp/0") {
        Ok(a) => Ok(a),
        Err(e) => Err(ChatSetupError::BadAddress(e)),
    }
}

/// Something the local network discovery reports.
pub enum DiscoveryEvent {
    /// Peers were discovered; their number.
    Discovered(usize),
    /// Peers expired; for each, in order, whether discovery still knows it
    /// through another address.
    Expired(Vec<bool>),
}

/// A change of the set of peers the chat room sends to; the number is the
/// peer's position in the event.
pub enum PeerViewUpdate {
    Join(usize),
    Leave(usize),
}

/// The peers to drop after an expiry: those discovery no longer knows, in
/// order.
pub open spec fn leaving_peers(still_known: Seq<bool>) -> Seq<PeerViewUpdate>
    decreases still_known.len(),
{
    if still_known.len() == 0 {
        seq![]
    } else {
        let prev = leaving_peers(still_known.drop_last());
        if still_known.last() {
            prev
        } else {
            prev.push(PeerViewUpdate::Leave((still_known.len() - 1) as usize))
        }
    }
}

/// After an expiry exactly the peers discovery no longer knows leave, each
/// once, in the order of the event.
pub proof fn lemma_leaving_peers(known: Seq<bool>)
    requires
        known.len() <= usize::MAX,
    ensures
        forall|k: int|
            0 <= k < leaving_peers(known).len() ==> (#[trigger] leaving_peers(known)[k] matches PeerViewUpdate::Leave(
                i,
            ) && i < known.len() && !known[i as int]),
        forall|i: int|
            0 <= i < known.len() ==> (!known[i] <==> exists|k: int|
                0 <= k < leaving_peers(known).len() && #[trigger] leaving_peers(known)[k]
                    == PeerViewUpdate::Leave(i as usize)),
        forall|k1: int, k2: int|
            0 <= k1 < k2 < leaving_peers(known).len() ==> (#[trigger] leaving_peers(known)[k1])->Leave_0
                < (#[trigger] leaving_peers(known)[k2])->Leave_0,
    decreases known.len(),
{
    if known.len() > 0 {
        let init = known.drop_last();
        let prev = leaving_peers(init);
        let r = leaving_peers(known);
        let n = known.len() - 1;
        lemma_leaving_peers(init);
        assert forall|k: int| 0 <= k < prev.len() implies r[k] == prev[k] by {
        }
        assert forall|k: int| 0 <= k < r.len() implies (#[trigger] r[k] matches PeerViewUpdate::Leave(
            i,
        ) && i < known.len() && !known[i as int]) by {
            if k < prev.len() {
                assert(r[k] == prev[k]);
                let i = prev[k]->Leave_0;
                assert(known[i as int] == init[i as int]);
            }
        }
        assert forall|i: int| 0 <= i < known.len() implies (!known[i] <==> exists|k: int|
            0 <= k < r.len() && #[trigger] r[k] == PeerViewUpdate::Leave(i as usize)) by {
            if i < n {
                assert(known[i] == init[i]);
                if !known[i] {
                    let k = choose|k: int|
                        0 <= k < prev.len() && #[trigger] prev[k] == PeerViewUpdate::Leave(
                            i as usize,
                        );
                    assert(r[k] == prev[k]);
                }
                if exists|k: int| 0 <= k < r.len() && #[trigger] r[k] == PeerViewUpdate::Leave(
                    i as usize,
                ) {
                    let k = choose|k: int|
                        0 <= k < r.len() && #[trigger] r[k] == PeerViewUpdate::Leave(i as usize);
                    if k < prev.len() {
                        assert(prev[k] == r[k]);
                    } else {
                        assert(r[k] == PeerViewUpdate::Leave(n as usize));
                        assert((i as usize) != (n as usize));
                    }
                }
            } else {
                if !known[i] {
                    assert(r[prev.len() as int] == PeerViewUpdate::Leave(n as usize));
                } else {
                    if exists|k: int| 0 <= k < r.len() && #[trigger] r[k] == PeerViewUpdate::Leave(
                        i as usize,
                    ) {
                        let k = choose|k: int|
                            0 <= k < r.len() && #[trigger] r[k] == PeerViewUpdate::Leave(i as usize);
                        assert(r[k] == prev[k]);
                        assert(prev[k]->Leave_0 < init.len());
                    }
                }
            }
        }
        assert forall|k1: int, k2: int| 0 <= k1 < k2 < r.len() implies (#[trigger] r[k1])->Leave_0
            < (#[trigger] r[k2])->Leave_0 by {
            assert(r[k1] == prev[k1]);
            if k2 < prev.len() {
                assert(r[k2] == prev[k2]);
            } else {
                assert(prev[k1]->Leave_0 < init.len());
            }
        }
    }
}

/// How the chat room follows discovery: every discovered peer joins it; an
/// expired peer leaves it unless discovery still knows it.
pub fn discovery_updates(event: &DiscoveryEvent) -> (r: Vec<PeerViewUpdate>)
    ensures
        match event {
            DiscoveryEvent::Discovered(n) => r@.len() == *n && forall|i: int|
                0 <= i < *n ==> #[trigger] r@[i] == PeerViewUpdate::Join(i as usize),
            DiscoveryEvent::Expired(known) => r@ == leaving_peers(known@),
        },
        event matches DiscoveryEvent::Expired(known) ==> {
            &&& forall|k: int|
                0 <= k < r@.len() ==> (#[trigger] r@[k] matches PeerViewUpdate::Leave(i) && i
                    < known@.len() && !known@[i as int])
            &&& forall|i: int|
                0 <= i < known@.len() ==> (!known@[i] <==> exists|k: int|
                    0 <= k < r@.len() && #[trigger] r@[k] == PeerViewUpdate::Leave(i as usize))
            &&& forall|k1: int, k2: int|
                0 <= k1 < k2 < r@.len() ==> (#[trigger] r@[k1])->Leave_0 < (#[trigger] r@[k2])->Leave_0
        },
{
    let mut out: Vec<PeerViewUpdate> = Vec::new();
    match event {
        DiscoveryEvent::Discovered(n) => {
            let n = *n;
            let mut i: usize = 0;
            while i < n
                invariant
                    i <= n,
                    out@.len() == i,
                    forall|k: int| 0 <= k < i ==> #[trigger] out@[k] == PeerViewUpdate::Join(
                        k as usize,
                    ),
                decreases n - i,
            {
                out.push(PeerViewUpdate::Join(i));
                i = i + 1;
            }
        },
        DiscoveryEvent::Expired(known) => {
            let n = known.len();
            let mut i: usize = 0;
            assert(known@.take(0) =~= Seq::<bool>::empty());
            while i < n
                invariant
                    n == known@.len(),
                    i <= n,
                    out@ == leaving_peers(known@.take(i as int)),
                decreases n - i,
            {
                assert(known@.take(i + 1).drop_last() =~= known@.take(i as int));
                if !known[i] {
                    out.push(PeerViewUpdate::Leave(i));
                }
                i = i + 1;
            }
            assert(known@.take(n as int) =~= known@);
            proof {
                lemma_leaving_peers(known@);
            }
        },
    }
    out
}

/// Something that happened during a chat session.
pub enum ChatEvent {
    /// A line was typed.
    Line(String),
    /// The terminal's input ended.
    InputClosed,
    /// Reading the terminal failed.
    InputFailed,
    /// The node listens on a new address, shown as given.
    Listening(String),
    /// Any other event of the network.
    Network,
}

/// What the session does about an event.
pub enum ChatAction {
    /// Send these bytes to the chat room.
    Publish(Vec<u8>),
    /// Show this text.
    Show(String),
    /// Stop the program with this message.
    Abort(String),
    /// End the session with the input's failure.
    Fail,
    /// Nothing.
    Ignore,
}

/// The name of the chat room.
pub const CHAT_TOPIC: &'static str = "chat";

/// What the chat session does about one event: a typed line goes to the
/// room as its UTF-8 bytes, a new listening address is shown, the end of
/// the input stops the program, a failed read ends the session, and other
/// network events change nothing.
pub fn chat_step(event: ChatEvent) -> (r: ChatAction)
    ensures
        match event {
            ChatEvent::Line(l) => r matches ChatAction::Publish(d) && d@ == vstd::utf8::encode_utf8(
                l@,
            ),
            ChatEvent::InputClosed => r matches ChatAction::Abort(m) && m@ == "stdin closed"@,
            ChatEvent::InputFailed => r is Fail,
            ChatEvent::Listening(a) => r matches ChatAction::Show(m) && m@ == "Listening on "@
                + a@,
            ChatEvent::Network => r is Ignore,
        },
{
    match event {
        ChatEvent::Line(l) => ChatAction::Publish(vstd::slice::slice_to_vec(l.as_str().as_bytes())),
        ChatEvent::InputClosed => ChatAction::Abort("stdin closed".to_owned()),
        ChatEvent::InputFailed => ChatAction::Fail,
        ChatEvent::Listening(a) => ChatAction::Show(concat_text("Listening on ", a.as_str())),
        ChatEvent::Network => ChatAction::Ignore,
    }
}

} // verus!
