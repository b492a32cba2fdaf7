//! The messages of the WebSocket protocol as JSON documents, and as the
//! frames that carry them.

use crate::common::{AnnounceEvent, InfoHash};
use crate::common::{PeerId, ScrapeStatistics};
use crate::scrape::is_listing;
use crate::ws::{
    AnnounceResponse, ErrorResponse, ErrorResponseAction, OutMessage, ScrapeResponse,
};
use crate::json::{
    encode_json, get_member, items_view, json_text, lemma_array_view,
    lemma_members_empty, lemma_object_view, members_view, object_of, parse_json, push_member,
    text_of, EncodeError, JsonValue, JsonView,
};
use crate::text::{
    bytes_array, bytes_of_text, bytes_text, lemma_bytes_array, lemma_bytes_text_round_trip,
    spec_bytes_of_text, text_of_bytes,
};
use crate::ws::{
    AnnounceAction, AnnounceRequest, InMessage, InMessageView, ScrapeAction, ScrapeRequest,
    ScrapeRequestInfoHashes, ScrapeRequestInfoHashesView,
};
use vstd::string::StrSliceExecFns;
use vstd::prelude::*;

verus! {

/// The document with which a message names an info hash: a text of twenty
/// characters, each with the number of one byte.
pub open spec fn info_hash_document(info_hash: InfoHash) -> JsonView {
    JsonView::Text(bytes_text(info_hash.0@))
}

/// The mapping with one more member, where there is a document for it.
pub open spec fn with_member(
    members: Map<Seq<char>, JsonView>,
    name: Seq<char>,
    document: Option<JsonView>,
) -> Map<Seq<char>, JsonView> {
    match document {
        Some(document) => members.insert(name, document),
        None => members,
    }
}

/// A number as a document, where there is one.
pub open spec fn number_document(number: Option<usize>) -> Option<JsonView> {
    match number {
        Some(number) => Some(JsonView::Number(number as u64)),
        None => None,
    }
}

/// An event as a document, where there is one.
pub open spec fn event_document(event: Option<AnnounceEvent>) -> Option<JsonView> {
    match event {
        Some(event) => Some(JsonView::Text(event.spec_name())),
        None => None,
    }
}

/// The info hashes of a scrape as a document, where it names any: one text
/// for a single hash, an array of texts for a list.
pub open spec fn info_hashes_document(info_hashes: Option<ScrapeRequestInfoHashes>) -> Option<
    JsonView,
> {
    match info_hashes {
        Some(ScrapeRequestInfoHashes::Single(info_hash)) => Some(info_hash_document(info_hash)),
        Some(ScrapeRequestInfoHashes::Multiple(info_hashes)) => Some(
            JsonView::Array(
                Seq::new(info_hashes@.len(), |i: int| info_hash_document(info_hashes@[i])),
            ),
        ),
        None => None,
    }
}

impl AnnounceRequest {
    /// The announce as a JSON object: its action, info hash and peer id, and
    /// what else it tells.
    pub open spec fn spec_to_json(&self) -> JsonView {
        let required = Map::<Seq<char>, JsonView>::empty().insert(
            "action"@,
            JsonView::Text("announce"@),
        ).insert("info_hash"@, info_hash_document(self.info_hash)).insert(
            "peer_id"@,
            JsonView::Text(bytes_text(self.peer_id.0@)),
        );
        JsonView::Object(
            with_member(
                with_member(
                    with_member(required, "left"@, number_document(self.bytes_left)),
                    "event"@,
                    event_document(self.event),
                ),
                "numwant"@,
                number_document(self.numwant),
            ),
        )
    }

    /// The announce as a JSON object.
    pub fn to_json(&self) -> (json: JsonValue)
        ensures
            json@ == self.spec_to_json(),
            json.encodable(),
    {
        let mut members: Vec<(String, JsonValue)> = Vec::new();
        proof {
            lemma_members_empty(members@);
        }
        push_member(&mut members, "action", text_of("announce".to_owned()));
        push_member(&mut members, "info_hash", text_of(text_of_bytes(&self.info_hash.0)));
        push_member(&mut members, "peer_id", text_of(text_of_bytes(&self.peer_id.0)));
        if let Some(bytes_left) = self.bytes_left {
            push_member(&mut members, "left", JsonValue::Number(bytes_left as u64));
        }
        if let Some(event) = self.event {
            push_member(&mut members, "event", text_of(event.name().to_owned()));
        }
        if let Some(numwant) = self.numwant {
            push_member(&mut members, "numwant", JsonValue::Number(numwant as u64));
        }
        object_of(members)
    }
}

impl ScrapeRequest {
    /// The scrape as a JSON object: its action, and the info hashes where it
    /// names any.
    pub open spec fn spec_to_json(&self) -> JsonView {
        JsonView::Object(
            with_member(
                Map::<Seq<char>, JsonView>::empty().insert("action"@, JsonView::Text("scrape"@)),
                "info_hash"@,
                info_hashes_document(self.info_hashes),
            ),
        )
    }

    /// The scrape as a JSON object.
    pub fn to_json(&self) -> (json: JsonValue)
        ensures
            json@ == self.spec_to_json(),
            json.encodable(),
    {
        let mut members: Vec<(String, JsonValue)> = Vec::new();
        proof {
            lemma_members_empty(members@);
        }
        push_member(&mut members, "action", text_of("scrape".to_owned()));
        match &self.info_hashes {
            Some(ScrapeRequestInfoHashes::Single(info_hash)) => {
                push_member(&mut members, "info_hash", text_of(text_of_bytes(&info_hash.0)));
            },
            Some(ScrapeRequestInfoHashes::Multiple(info_hashes)) => {
                let mut items: Vec<JsonValue> = Vec::new();
                let mut i: usize = 0;
                while i < info_hashes.len()
                    invariant
                        i <= info_hashes.len(),
                        items@.len() == i,
                        forall|j: int|
                            0 <= j < i ==> (#[trigger] items@[j])@ == info_hash_document(
                                info_hashes@[j],
                            ) && items@[j].encodable(),
                    decreases info_hashes.len() - i,
                {
                    items.push(text_of(text_of_bytes(&info_hashes[i].0)));
                    i += 1;
                }
                proof {
                    lemma_array_view(items);
                    assert(items_view(items@) =~= Seq::new(
                        info_hashes@.len(),
                        |i: int| info_hash_document(info_hashes@[i]),
                    ));
                }
                push_member(&mut members, "info_hash", JsonValue::Array(items));
            },
            None => {},
        }
        object_of(members)
    }
}

/// `tungstenite::Message`: a frame of a WebSocket connection. Nothing of
/// its inside is looked into here; what it carries goes by the name
/// `ws_payload`.
#[verifier::external_type_specification]
#[verifier::external_body]
pub struct ExWsMessage(tungstenite::Message);

/// What a frame of tungstenite carries.
pub enum WsPayload {
    Text(Seq<char>),
    Binary(Seq<u8>),
    /// A ping, a pong, a close or a raw frame.
    Other,
}

/// What a frame carries.
pub uninterp spec fn ws_payload(message: tungstenite::Message) -> WsPayload;

/// `Message::from` of tungstenite on a string: the text frame that carries
/// it.
#[verifier::external_body]
pub(crate) fn ws_text_message(text: String) -> (message: tungstenite::Message)
    ensures
        ws_payload(message) == WsPayload::Text(text@),
{
    tungstenite::Message::from(text)
}

impl InMessage {
    /// The message as a JSON object.
    pub open spec fn spec_to_json(&self) -> JsonView {
        match self {
            InMessage::AnnounceRequest(request) => request.spec_to_json(),
            InMessage::ScrapeRequest(request) => request.spec_to_json(),
        }
    }

    /// The message as a JSON object.
    pub fn to_json(&self) -> (json: JsonValue)
        ensures
            json@ == self.spec_to_json(),
            json.encodable(),
    {
        match self {
            InMessage::AnnounceRequest(request) => request.to_json(),
            InMessage::ScrapeRequest(request) => request.to_json(),
        }
    }

    /// The text frame that carries the message as JSON, where the encoder
    /// gives a text for it.
    pub fn to_ws_message(&self) -> (message: Result<tungstenite::Message, EncodeError>)
        ensures
            match message {
                Ok(message) => json_text(self.spec_to_json()) == Some(
                    ws_payload(message)->Text_0,
                ) && ws_payload(message) is Text,
                Err(_) => json_text(self.spec_to_json()).is_none(),
            },
    {
        let json = self.to_json();
        match encode_json(&json) {
            Ok(text) => Ok(ws_text_message(text)),
            Err(error) => Err(error),
        }
    }
}

/// The member of the given name; null where there is none, as if null had
/// been written.
pub open spec fn member_or_null(members: Map<Seq<char>, JsonView>, name: Seq<char>) -> JsonView {
    if members.contains_key(name) {
        members[name]
    } else {
        JsonView::Null
    }
}

/// The twenty bytes that a document names, where it is a text of twenty
/// characters that each have the number of a byte.
pub open spec fn document_bytes(document: JsonView) -> Option<[u8; 20]> {
    match document {
        JsonView::Text(text) => match spec_bytes_of_text(text) {
            Some(bytes) => Some(bytes_array(bytes)),
            None => None,
        },
        _ => None,
    }
}

/// The count that a document tells: none where it is null, the number where
/// it is a whole number from zero up that a count can hold, held with a sign
/// or without. Any other document tells no count.
pub open spec fn document_count(document: JsonView) -> Option<Option<usize>> {
    match document {
        JsonView::Null => Some(None),
        JsonView::Number(number) => if number <= usize::MAX {
            Some(Some(number as usize))
        } else {
            None
        },
        JsonView::Signed(number) => if 0 <= number <= usize::MAX {
            Some(Some(number as usize))
        } else {
            None
        },
        _ => None,
    }
}

/// The event that a document tells: none where it is null, the event named
/// where it is the name of one.
pub open spec fn document_event(document: JsonView) -> Option<Option<AnnounceEvent>> {
    match document {
        JsonView::Null => Some(None),
        JsonView::Text(name) => match AnnounceEvent::spec_from_name(name) {
            Some(event) => Some(Some(event)),
            None => None,
        },
        _ => None,
    }
}

/// The info hashes that a document names for a scrape: none where it is
/// null, one where it is a text, a list where it is an array of texts.
pub open spec fn document_info_hashes(document: JsonView) -> Option<
    Option<ScrapeRequestInfoHashesView>,
> {
    match document {
        JsonView::Null => Some(None),
        JsonView::Text(_) => match document_bytes(document) {
            Some(bytes) => Some(Some(ScrapeRequestInfoHashesView::Single(InfoHash(bytes)))),
            None => None,
        },
        JsonView::Array(items) => if forall|i: int|
            0 <= i < items.len() ==> (#[trigger] document_bytes(items[i])).is_some() {
            Some(
                Some(
                    ScrapeRequestInfoHashesView::Multiple(
                        Seq::new(items.len(), |i: int| InfoHash(document_bytes(items[i]).unwrap())),
                    ),
                ),
            )
        } else {
            None
        },
        _ => None,
    }
}

/// The announce that the members of an object describe, where they
/// describe one.
pub open spec fn announce_of_members(members: Map<Seq<char>, JsonView>) -> Option<AnnounceRequest> {
    match (
        document_bytes(member_or_null(members, "info_hash"@)),
        document_bytes(member_or_null(members, "peer_id"@)),
        document_count(member_or_null(members, "left"@)),
        document_event(member_or_null(members, "event"@)),
        document_count(member_or_null(members, "numwant"@)),
    ) {
        (Some(info_hash), Some(peer_id), Some(bytes_left), Some(event), Some(numwant)) => Some(
            AnnounceRequest {
                action: AnnounceAction,
                info_hash: InfoHash(info_hash),
                peer_id: PeerId(peer_id),
                bytes_left,
                event,
                numwant,
            },
        ),
        _ => None,
    }
}

/// The message that a JSON document describes, where it describes one: an
/// object whose action is `announce` and whose members describe an announce,
/// or one whose action is `scrape` and which names its info hashes as a
/// scrape does. Members of other names are passed over.
pub open spec fn spec_from_json(document: JsonView) -> Option<InMessageView> {
    match document {
        JsonView::Object(members) => if member_or_null(members, "action"@) == JsonView::Text(
            "announce"@,
        ) {
            match announce_of_members(members) {
                Some(request) => Some(InMessageView::AnnounceRequest(request)),
                None => None,
            }
        } else if member_or_null(members, "action"@) == JsonView::Text("scrape"@) {
            match document_info_hashes(member_or_null(members, "info_hash"@)) {
                Some(info_hashes) => Some(InMessageView::ScrapeRequest(info_hashes)),
                None => None,
            }
        } else {
            None
        },
        _ => None,
    }
}

/// Why a frame holds no message.
#[derive(Clone, Copy, Debug, PartialEq, Eq, Structural)]
pub enum ParseError {
    /// The frame carries neither text nor bytes.
    NotTextOrBinary,
    /// What the frame carries is no JSON document.
    InvalidJson,
    /// The JSON document describes no message.
    InvalidMessage,
}

impl ParseError {
    /// What is told of the error.
    pub open spec fn spec_message(self) -> Seq<char> {
        match self {
            ParseError::NotTextOrBinary => "Message is neither text nor binary"@,
            ParseError::InvalidJson => "deserialize: invalid JSON"@,
            ParseError::InvalidMessage => "deserialize: JSON describes no message"@,
        }
    }

    /// What is told of the error.
    pub fn message(self) -> (text: &'static str)
        ensures
            text@ == self.spec_message(),
    {
        match self {
            ParseError::NotTextOrBinary => "Message is neither text nor binary",
            ParseError::InvalidJson => "deserialize: invalid JSON",
            ParseError::InvalidMessage => "deserialize: JSON describes no message",
        }
    }
}

/// The member of the given name; null where there is none.
fn read_member<'a>(members: &'a Vec<(String, JsonValue)>, name: &str, null: &'a JsonValue) -> (member:
    &'a JsonValue)
    requires
        null@ == JsonView::Null,
    ensures
        member@ == member_or_null(members_view(members@), name@),
{
    match get_member(members, name) {
        Some(member) => member,
        None => null,
    }
}

/// The twenty bytes that a document names.
fn read_bytes(document: &JsonValue) -> (bytes: Option<[u8; 20]>)
    ensures
        bytes == document_bytes(document@),
{
    match document {
        JsonValue::Text(text) => match bytes_of_text(text.as_str()) {
            Some(bytes) => {
                proof {
                    lemma_bytes_array(bytes);
                }
                Some(bytes)
            },
            None => None,
        },
        _ => None,
    }
}

/// The count that a document tells.
fn read_count(document: &JsonValue) -> (count: Option<Option<usize>>)
    ensures
        count == document_count(document@),
{
    match document {
        JsonValue::Null => Some(None),
        JsonValue::Number(number) => {
            if *number <= usize::MAX as u64 {
                Some(Some(*number as usize))
            } else {
                None
            }
        },
        JsonValue::Signed(number) => {
            if *number >= 0 && *number as u64 <= usize::MAX as u64 {
                Some(Some(*number as usize))
            } else {
                None
            }
        },
        _ => None,
    }
}

/// The event that a document tells.
fn read_event(document: &JsonValue) -> (event: Option<Option<AnnounceEvent>>)
    ensures
        event == document_event(document@),
{
    match document {
        JsonValue::Null => Some(None),
        JsonValue::Text(name) => match AnnounceEvent::from_name(name) {
            Some(event) => Some(Some(event)),
            None => None,
        },
        _ => None,
    }
}

/// The info hashes that a document names for a scrape.
fn read_info_hashes(document: &JsonValue) -> (info_hashes: Option<Option<ScrapeRequestInfoHashes>>)
    ensures
        match info_hashes {
            Some(Some(info_hashes)) => document_info_hashes(document@) == Some(
                Some(info_hashes@),
            ),
            Some(None) => document_info_hashes(document@) == Some(
                None::<ScrapeRequestInfoHashesView>,
            ),
            None => document_info_hashes(document@).is_none(),
        },
{
    match document {
        JsonValue::Null => Some(None),
        JsonValue::Text(_) => match read_bytes(document) {
            Some(bytes) => Some(Some(ScrapeRequestInfoHashes::Single(InfoHash(bytes)))),
            None => None,
        },
        JsonValue::Array(items) => {
            proof {
                lemma_array_view(*items);
            }
            let mut info_hashes: Vec<InfoHash> = Vec::new();
            let mut i: usize = 0;
            while i < items.len()
                invariant
                    i <= items.len(),
                    info_hashes@.len() == i,
                    document@ == JsonView::Array(items_view(items@)),
                    forall|j: int|
                        0 <= j < i ==> document_bytes(#[trigger] items_view(items@)[j]) == Some(
                            info_hashes@[j].0,
                        ),
                decreases items.len() - i,
            {
                match read_bytes(&items[i]) {
                    Some(bytes) => {
                        info_hashes.push(InfoHash(bytes));
                    },
                    None => {
                        proof {
                            assert(document_bytes(items_view(items@)[i as int]).is_none());
                        }
                        return None;
                    },
                }
                i += 1;
            }
            proof {
                assert(info_hashes@ =~= Seq::new(
                    items_view(items@).len(),
                    |i: int| InfoHash(document_bytes(items_view(items@)[i]).unwrap()),
                ));
            }
            Some(Some(ScrapeRequestInfoHashes::Multiple(info_hashes)))
        },
        _ => None,
    }
}

/// The announce that the members of an object describe.
fn read_announce(members: &Vec<(String, JsonValue)>) -> (request: Option<AnnounceRequest>)
    ensures
        request == announce_of_members(members_view(members@)),
{
    let null = JsonValue::Null;
    let info_hash = match read_bytes(read_member(members, "info_hash", &null)) {
        Some(bytes) => InfoHash(bytes),
        None => {
            return None;
        },
    };
    let peer_id = match read_bytes(read_member(members, "peer_id", &null)) {
        Some(bytes) => PeerId(bytes),
        None => {
            return None;
        },
    };
    let bytes_left = match read_count(read_member(members, "left", &null)) {
        Some(count) => count,
        None => {
            return None;
        },
    };
    let event = match read_event(read_member(members, "event", &null)) {
        Some(event) => event,
        None => {
            return None;
        },
    };
    let numwant = match read_count(read_member(members, "numwant", &null)) {
        Some(count) => count,
        None => {
            return None;
        },
    };
    Some(AnnounceRequest { action: AnnounceAction, info_hash, peer_id, bytes_left, event, numwant })
}

/// Whether a document is the text with the given characters.
fn is_text(document: &JsonValue, text: &str) -> (same: bool)
    ensures
        same == (document@ == JsonView::Text(text@)),
{
    match document {
        JsonValue::Text(found) => *found == text.to_owned(),
        _ => false,
    }
}

/// What a frame carries, with text and bytes as strings and vectors.
pub enum WsFrame {
    Text(String),
    Binary(Vec<u8>),
    /// A ping, a pong, a close or a raw frame.
    Other,
}

/// Takes a frame of tungstenite apart: its text where it is a text frame,
/// its bytes where it is a binary frame.
#[verifier::external_body]
pub(crate) fn ws_message_frame(message: tungstenite::Message) -> (frame: WsFrame)
    ensures
        match frame {
            WsFrame::Text(text) => ws_payload(message) == WsPayload::Text(text@),
            WsFrame::Binary(bytes) => ws_payload(message) == WsPayload::Binary(bytes@),
            WsFrame::Other => ws_payload(message) is Other,
        },
{
    match message {
        tungstenite::Message::Text(text) => WsFrame::Text(text),
        tungstenite::Message::Binary(bytes) => WsFrame::Binary(bytes),
        _ => WsFrame::Other,
    }
}

/// The message that the outcome of parsing describes: none where the parser
/// read no document, and none where the document it read describes none.
pub open spec fn spec_from_parsed(parsed: Option<JsonView>) -> Result<InMessageView, ParseError> {
    match parsed {
        None => Err(ParseError::InvalidJson),
        Some(document) => match spec_from_json(document) {
            Some(message) => Ok(message),
            None => Err(ParseError::InvalidMessage),
        },
    }
}

/// The outcome of parsing, with the document as mathematics sees it.
pub open spec fn parsed_view(parsed: Option<JsonValue>) -> Option<JsonView> {
    match parsed {
        Some(document) => Some(document@),
        None => None,
    }
}

/// The view of what reading a message gives.
pub open spec fn read_result_view(result: Result<InMessage, ParseError>) -> Result<
    InMessageView,
    ParseError,
> {
    match result {
        Ok(message) => Ok(message@),
        Err(error) => Err(error),
    }
}

impl InMessage {
    /// The message that a JSON document describes, where it describes one.
    pub fn from_json(document: &JsonValue) -> (message: Option<InMessage>)
        ensures
            match message {
                Some(message) => spec_from_json(document@) == Some(message@),
                None => spec_from_json(document@).is_none(),
            },
    {
        match document {
            JsonValue::Object(members) => {
                proof {
                    lemma_object_view(*members);
                }
                let null = JsonValue::Null;
                let action = read_member(members, "action", &null);
                if is_text(action, "announce") {
                    match read_announce(members) {
                        Some(request) => Some(InMessage::AnnounceRequest(request)),
                        None => None,
                    }
                } else if is_text(action, "scrape") {
                    match read_info_hashes(read_member(members, "info_hash", &null)) {
                        Some(info_hashes) => Some(
                            InMessage::ScrapeRequest(
                                ScrapeRequest { action: ScrapeAction, info_hashes },
                            ),
                        ),
                        None => None,
                    }
                } else {
                    None
                }
            },
            _ => None,
        }
    }

    /// The message that the outcome of parsing describes.
    pub fn from_parsed(parsed: Option<JsonValue>) -> (message: Result<InMessage, ParseError>)
        ensures
            read_result_view(message) == spec_from_parsed(parsed_view(parsed)),
    {
        match parsed {
            Some(document) => match InMessage::from_json(&document) {
                Some(message) => Ok(message),
                None => Err(ParseError::InvalidMessage),
            },
            None => Err(ParseError::InvalidJson),
        }
    }

    /// The message that the bytes of a JSON text describe: that which the
    /// outcome of parsing them describes, whatever the parser made of them.
    pub fn from_bytes(bytes: Vec<u8>) -> (message: Result<InMessage, ParseError>)
        ensures
            exists|parsed: Option<JsonView>|
                read_result_view(message) == #[trigger] spec_from_parsed(parsed),
    {
        let parsed = parse_json(bytes);
        let message = InMessage::from_parsed(parsed);
        proof {
            assert(read_result_view(message) == spec_from_parsed(parsed_view(parsed)));
        }
        message
    }

    /// The message that a frame carries: that which the bytes of its text,
    /// or its bytes, describe. A frame that carries neither holds none.
    pub fn from_ws_message(ws_message: tungstenite::Message) -> (message: Result<
        InMessage,
        ParseError,
    >)
        ensures
            ws_payload(ws_message) is Other ==> read_result_view(message) == Err::<
                InMessageView,
                ParseError,
            >(ParseError::NotTextOrBinary),
            !(ws_payload(ws_message) is Other) ==> exists|parsed: Option<JsonView>|
                read_result_view(message) == #[trigger] spec_from_parsed(parsed),
    {
        match ws_message_frame(ws_message) {
            WsFrame::Text(text) => InMessage::from_bytes(text.as_str().as_bytes_vec()),
            WsFrame::Binary(bytes) => InMessage::from_bytes(bytes),
            WsFrame::Other => Err(ParseError::NotTextOrBinary),
        }
    }
}

/// The names of the members of a message are six different names, and the
/// two actions two different texts.
pub proof fn lemma_member_names_differ()
    ensures
        "action"@ != "info_hash"@,
        "action"@ != "peer_id"@,
        "action"@ != "left"@,
        "action"@ != "event"@,
        "action"@ != "numwant"@,
        "info_hash"@ != "peer_id"@,
        "info_hash"@ != "left"@,
        "info_hash"@ != "event"@,
        "info_hash"@ != "numwant"@,
        "peer_id"@ != "left"@,
        "peer_id"@ != "event"@,
        "peer_id"@ != "numwant"@,
        "left"@ != "event"@,
        "left"@ != "numwant"@,
        "event"@ != "numwant"@,
        "announce"@ != "scrape"@,
{
    reveal_strlit("action");
    reveal_strlit("info_hash");
    reveal_strlit("peer_id");
    reveal_strlit("left");
    reveal_strlit("event");
    reveal_strlit("numwant");
    reveal_strlit("announce");
    reveal_strlit("scrape");
    assert("action"@.len() == 6);
    assert("info_hash"@.len() == 9);
    assert("peer_id"@.len() == 7);
    assert("left"@.len() == 4);
    assert("event"@.len() == 5);
    assert("numwant"@.len() == 7);
    assert("announce"@.len() == 8);
    assert("scrape"@.len() == 6);
    assert("peer_id"@[0] == 'p');
    assert("numwant"@[0] == 'n');
}

/// The document that names an info hash names that info hash.
pub proof fn lemma_info_hash_document(bytes: [u8; 20])
    ensures
        document_bytes(JsonView::Text(bytes_text(bytes@))) == Some(bytes),
{
    lemma_bytes_text_round_trip(bytes@);
    lemma_bytes_array(bytes);
}

/// Reading the JSON object of an announce gives the announce back.
pub proof fn lemma_announce_round_trip(request: AnnounceRequest)
    ensures
        spec_from_json(request.spec_to_json()) == Some(InMessageView::AnnounceRequest(request)),
{
    lemma_member_names_differ();
    lemma_info_hash_document(request.info_hash.0);
    lemma_info_hash_document(request.peer_id.0);
    if let Some(event) = request.event {
        event.lemma_name_round_trip();
    }
    let members = request.spec_to_json()->Object_0;
    assert(member_or_null(members, "action"@) == JsonView::Text("announce"@));
    assert(member_or_null(members, "info_hash"@) == info_hash_document(request.info_hash));
    assert(member_or_null(members, "peer_id"@) == JsonView::Text(bytes_text(request.peer_id.0@)));
    assert(document_count(member_or_null(members, "left"@)) == Some(request.bytes_left));
    assert(document_event(member_or_null(members, "event"@)) == Some(request.event));
    assert(document_count(member_or_null(members, "numwant"@)) == Some(request.numwant));
    let read = announce_of_members(members).unwrap();
    assert(read.info_hash == request.info_hash);
    assert(read.peer_id == request.peer_id);
}

/// Reading the JSON object of a scrape gives the scrape back.
pub proof fn lemma_scrape_round_trip(request: ScrapeRequest)
    ensures
        spec_from_json(request.spec_to_json()) == Some(InMessage::ScrapeRequest(request)@),
{
    lemma_member_names_differ();
    let members = request.spec_to_json()->Object_0;
    assert(member_or_null(members, "action"@) == JsonView::Text("scrape"@));
    match request.info_hashes {
        None => {
            assert(member_or_null(members, "info_hash"@) == JsonView::Null);
        },
        Some(ScrapeRequestInfoHashes::Single(info_hash)) => {
            lemma_info_hash_document(info_hash.0);
            assert(member_or_null(members, "info_hash"@) == info_hash_document(info_hash));
        },
        Some(ScrapeRequestInfoHashes::Multiple(info_hashes)) => {
            let items = Seq::new(info_hashes@.len(), |i: int| info_hash_document(info_hashes@[i]));
            assert(member_or_null(members, "info_hash"@) == JsonView::Array(items));
            assert forall|i: int| 0 <= i < items.len() implies (#[trigger] document_bytes(
                items[i],
            )) == Some(info_hashes@[i].0) by {
                lemma_info_hash_document(info_hashes@[i].0);
            }
            assert(Seq::new(items.len(), |i: int| InfoHash(document_bytes(items[i]).unwrap()))
                =~= info_hashes@);
        },
    }
}

/// Reading the JSON object of a message gives the message back.
pub proof fn lemma_in_message_round_trip(message: InMessage)
    ensures
        spec_from_json(message.spec_to_json()) == Some(message@),
{
    match message {
        InMessage::AnnounceRequest(request) => {
            lemma_announce_round_trip(request);
        },
        InMessage::ScrapeRequest(request) => {
            lemma_scrape_round_trip(request);
        },
    }
}

impl ErrorResponseAction {
    /// The name by which a message tells the kind of request.
    pub open spec fn spec_name(self) -> Seq<char> {
        match self {
            ErrorResponseAction::Announce => "announce"@,
            ErrorResponseAction::Scrape => "scrape"@,
        }
    }

    /// The name by which a message tells the kind of request.
    pub fn name(self) -> (name: &'static str)
        ensures
            name@ == self.spec_name(),
    {
        match self {
            ErrorResponseAction::Announce => "announce",
            ErrorResponseAction::Scrape => "scrape",
        }
    }
}

impl AnnounceResponse {
    /// The response as a JSON object: its action, the info hash, the
    /// seeders as `complete`, the leechers as `incomplete`, and the interval.
    pub open spec fn spec_to_json(&self) -> JsonView {
        JsonView::Object(
            Map::<Seq<char>, JsonView>::empty().insert(
                "action"@,
                JsonView::Text("announce"@),
            ).insert("info_hash"@, info_hash_document(self.info_hash)).insert(
                "complete"@,
                JsonView::Number(self.complete as u64),
            ).insert("incomplete"@, JsonView::Number(self.incomplete as u64)).insert(
                "interval"@,
                JsonView::Number(self.announce_interval as u64),
            ),
        )
    }

    /// The response as a JSON object.
    pub fn to_json(&self) -> (json: JsonValue)
        ensures
            json@ == self.spec_to_json(),
            json.encodable(),
    {
        let mut members: Vec<(String, JsonValue)> = Vec::new();
        proof {
            lemma_members_empty(members@);
        }
        push_member(&mut members, "action", text_of("announce".to_owned()));
        push_member(&mut members, "info_hash", text_of(text_of_bytes(&self.info_hash.0)));
        push_member(&mut members, "complete", JsonValue::Number(self.complete as u64));
        push_member(&mut members, "incomplete", JsonValue::Number(self.incomplete as u64));
        push_member(&mut members, "interval", JsonValue::Number(self.announce_interval as u64));
        object_of(members)
    }
}

/// An action as a document, where there is one.
pub open spec fn action_document(action: Option<ErrorResponseAction>) -> Option<JsonView> {
    match action {
        Some(action) => Some(JsonView::Text(action.spec_name())),
        None => None,
    }
}

/// An info hash as a document, where there is one.
pub open spec fn optional_info_hash_document(info_hash: Option<InfoHash>) -> Option<JsonView> {
    match info_hash {
        Some(info_hash) => Some(info_hash_document(info_hash)),
        None => None,
    }
}

impl ErrorResponse {
    /// The response as a JSON object: the reason of the failure, and the
    /// action and the info hash of the request where they are known.
    pub open spec fn spec_to_json(&self) -> JsonView {
        JsonView::Object(
            with_member(
                with_member(
                    Map::<Seq<char>, JsonView>::empty().insert(
                        "failure reason"@,
                        JsonView::Text(self.failure_reason@),
                    ),
                    "action"@,
                    action_document(self.action),
                ),
                "info_hash"@,
                optional_info_hash_document(self.info_hash),
            ),
        )
    }

    /// The response as a JSON object.
    pub fn to_json(&self) -> (json: JsonValue)
        ensures
            json@ == self.spec_to_json(),
            json.encodable(),
    {
        let mut members: Vec<(String, JsonValue)> = Vec::new();
        proof {
            lemma_members_empty(members@);
        }
        push_member(&mut members, "failure reason", text_of(self.failure_reason.clone()));
        if let Some(action) = self.action {
            push_member(&mut members, "action", text_of(action.name().to_owned()));
        }
        if let Some(info_hash) = self.info_hash {
            push_member(&mut members, "info_hash", text_of(text_of_bytes(&info_hash.0)));
        }
        object_of(members)
    }
}

/// The statistics of one swarm as a JSON object.
pub open spec fn statistics_document(statistics: ScrapeStatistics) -> JsonView {
    JsonView::Object(
        Map::<Seq<char>, JsonView>::empty().insert(
            "complete"@,
            JsonView::Number(statistics.complete as u64),
        ).insert("incomplete"@, JsonView::Number(statistics.incomplete as u64)).insert(
            "downloaded"@,
            JsonView::Number(statistics.downloaded as u64),
        ),
    )
}

/// The statistics of one swarm as a JSON object.
pub fn statistics_json(statistics: &ScrapeStatistics) -> (json: JsonValue)
    ensures
        json@ == statistics_document(*statistics),
        json.encodable(),
{
    let mut members: Vec<(String, JsonValue)> = Vec::new();
    proof {
        lemma_members_empty(members@);
    }
    push_member(&mut members, "complete", JsonValue::Number(statistics.complete as u64));
    push_member(&mut members, "incomplete", JsonValue::Number(statistics.incomplete as u64));
    push_member(&mut members, "downloaded", JsonValue::Number(statistics.downloaded as u64));
    object_of(members)
}

/// The members that stand for the swarms listed: the statistics of each
/// under its info hash written as text.
pub open spec fn files_members(pairs: Seq<(InfoHash, ScrapeStatistics)>) -> Map<
    Seq<char>,
    JsonView,
>
    decreases pairs.len(),
{
    if pairs.len() == 0 {
        Map::empty()
    } else {
        files_members(pairs.drop_last()).insert(
            bytes_text(pairs.last().0.0@),
            statistics_document(pairs.last().1),
        )
    }
}

impl ScrapeResponse {
    /// Whether `json` is the response as a JSON object: its action, and
    /// under `files` an object of the swarms, each under its info hash.
    pub open spec fn is_json(&self, json: JsonView) -> bool {
        exists|pairs: Seq<(InfoHash, ScrapeStatistics)>|
            {
                &&& #[trigger] is_listing(pairs, self.files@)
                &&& json == JsonView::Object(
                    Map::<Seq<char>, JsonView>::empty().insert(
                        "action"@,
                        JsonView::Text("scrape"@),
                    ).insert("files"@, JsonView::Object(files_members(pairs))),
                )
            }
    }

    /// The response as a JSON object.
    pub fn to_json(&self) -> (json: JsonValue)
        ensures
            self.is_json(json@),
            json.encodable(),
    {
        let pairs = self.files.pairs();
        let mut files: Vec<(String, JsonValue)> = Vec::new();
        proof {
            lemma_members_empty(files@);
        }
        let mut i: usize = 0;
        while i < pairs.len()
            invariant
                i <= pairs.len(),
                files_members(pairs@.take(i as int)) == members_view(files@),
                forall|j: int| 0 <= j < files@.len() ==> (#[trigger] files@[j]).1.encodable(),
            decreases pairs.len() - i,
        {
            proof {
                assert(pairs@.take(i + 1).drop_last() =~= pairs@.take(i as int));
            }
            let name = text_of_bytes(&pairs[i].0.0);
            push_member(&mut files, name.as_str(), statistics_json(&pairs[i].1));
            i += 1;
        }
        proof {
            assert(pairs@.take(i as int) =~= pairs@);
        }
        let mut members: Vec<(String, JsonValue)> = Vec::new();
        proof {
            lemma_members_empty(members@);
        }
        push_member(&mut members, "action", text_of("scrape".to_owned()));
        push_member(&mut members, "files", object_of(files));
        object_of(members)
    }
}

impl OutMessage {
    /// Whether `json` is the message as a JSON object.
    pub open spec fn is_json(&self, json: JsonView) -> bool {
        match self {
            OutMessage::AnnounceResponse(response) => json == response.spec_to_json(),
            OutMessage::ScrapeResponse(response) => response.is_json(json),
            OutMessage::ErrorResponse(response) => json == response.spec_to_json(),
        }
    }

    /// The message as a JSON object.
    pub fn to_json(&self) -> (json: JsonValue)
        ensures
            self.is_json(json@),
            json.encodable(),
    {
        match self {
            OutMessage::AnnounceResponse(response) => response.to_json(),
            OutMessage::ScrapeResponse(response) => response.to_json(),
            OutMessage::ErrorResponse(response) => response.to_json(),
        }
    }

    /// The text frame that carries the message as JSON, where the encoder
    /// gives a text for it.
    pub fn to_ws_message(&self) -> (message: Result<tungstenite::Message, EncodeError>)
        ensures
            match message {
                Ok(message) => ws_payload(message) is Text && exists|json: JsonView| #[trigger]
                    self.is_json(json) && json_text(json) == Some(ws_payload(message)->Text_0),
                Err(_) => exists|json: JsonView| #[trigger]
                    self.is_json(json) && json_text(json).is_none(),
            },
    {
        let json = self.to_json();
        match encode_json(&json) {
            Ok(text) => Ok(ws_text_message(text)),
            Err(error) => Err(error),
        }
    }
}

} // verus!
