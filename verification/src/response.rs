//! The outbound envelope: speech, card, reprompt, session attributes and
//! directives, with the incremental builder over it.

use vstd::prelude::*;

use crate::json::{entries_view, items_view, jlookup, json_view, lemma_entries_view, Json, JsonV};
use crate::kvmap::KvMap;
use crate::request::{
    all_str_values, first_keys, opt_str_eq, opt_str_of, opt_str_ok, req_str, str_map_from_entries,
    str_obj_map, str_of, DecodeError,
};

verus! {

/// The two speech renderings; the wire `type` tag decides which of the
/// `text`/`ssml` fields carries the content.
#[derive(Debug, Clone, Copy, PartialEq, Eq, Structural)]
pub enum SpeechType {
    Plain,
    Ssml,
}

impl SpeechType {
    /// The wire spelling of the tag.
    pub open spec fn spec_str(self) -> Seq<char> {
        match self {
            SpeechType::Plain => "PlainText"@,
            SpeechType::Ssml => "SSML"@,
        }
    }

    pub fn as_str(&self) -> (r: &'static str)
        ensures
            r@ == self.spec_str(),
    {
        match *self {
            SpeechType::Plain => "PlainText",
            SpeechType::Ssml => "SSML",
        }
    }
}

/// Play behavior for output speech.
#[derive(Debug, Clone, Copy, PartialEq, Eq, Structural)]
pub enum PlayBehavior {
    Enqueue,
    ReplaceAll,
    ReplaceEnqueued,
}

impl PlayBehavior {
    /// The wire spelling of the behavior.
    pub open spec fn spec_str(self) -> Seq<char> {
        match self {
            PlayBehavior::Enqueue => "ENQUEUE"@,
            PlayBehavior::ReplaceAll => "REPLACE_ALL"@,
            PlayBehavior::ReplaceEnqueued => "REPLACE_ENQUEUED"@,
        }
    }

    pub fn as_str(&self) -> (r: &'static str)
        ensures
            r@ == self.spec_str(),
    {
        match *self {
            PlayBehavior::Enqueue => "ENQUEUE",
            PlayBehavior::ReplaceAll => "REPLACE_ALL",
            PlayBehavior::ReplaceEnqueued => "REPLACE_ENQUEUED",
        }
    }
}

/// Types of cards for a response.
#[derive(Debug, Clone, Copy, PartialEq, Eq, Structural)]
pub enum CardType {
    Simple,
    Standard,
    LinkAccount,
    AskForPermission,
}

impl CardType {
    /// The wire spelling of the tag; the consent card keeps the wire
    /// contract's own spelling.
    pub open spec fn spec_str(self) -> Seq<char> {
        match self {
            CardType::Simple => "Simple"@,
            CardType::Standard => "Standard"@,
            CardType::LinkAccount => "LinkAccount"@,
            CardType::AskForPermission => "AskForPermissonConsent"@,
        }
    }

    pub fn as_str(&self) -> (r: &'static str)
        ensures
            r@ == self.spec_str(),
    {
        match *self {
            CardType::Simple => "Simple",
            CardType::Standard => "Standard",
            CardType::LinkAccount => "LinkAccount",
            CardType::AskForPermission => "AskForPermissonConsent",
        }
    }
}

/// Spoken output: exactly one of `text`/`ssml` is populated, matching the
/// type tag.
#[derive(Debug, Clone)]
pub struct Speech {
    pub speech_type: SpeechType,
    pub text: Option<String>,
    pub ssml: Option<String>,
    pub play_behavior: Option<PlayBehavior>,
}

impl Speech {
    /// Constructs a plain text output speech.
    pub fn plain(s: &str) -> (r: Speech)
        ensures
            r.speech_type == SpeechType::Plain,
            r.text matches Some(t) && t@ == s@,
            r.ssml is None,
            r.play_behavior is None,
    {
        Speech {
            speech_type: SpeechType::Plain,
            text: Some(s.to_owned()),
            ssml: None,
            play_behavior: None,
        }
    }

    /// Constructs an SSML output speech (with supplied SSML).
    pub fn ssml(s: &str) -> (r: Speech)
        ensures
            r.speech_type == SpeechType::Ssml,
            r.ssml matches Some(t) && t@ == s@,
            r.text is None,
            r.play_behavior is None,
    {
        Speech {
            speech_type: SpeechType::Ssml,
            text: None,
            ssml: Some(s.to_owned()),
            play_behavior: None,
        }
    }

    /// Adds play behavior to a speech object.
    pub fn play_behavior(&mut self, behavior: PlayBehavior)
        ensures
            final(self).play_behavior == Some(behavior),
            final(self).speech_type == old(self).speech_type,
            final(self).text == old(self).text,
            final(self).ssml == old(self).ssml,
    {
        self.play_behavior = Some(behavior);
    }
}

/// An image attached to a standard card.
#[derive(Debug, Clone)]
pub struct Image {
    pub small_image_url: Option<String>,
    pub large_image_url: Option<String>,
}

impl Image {
    pub fn new() -> (r: Image)
        ensures
            r.small_image_url is None,
            r.large_image_url is None,
    {
        Image { small_image_url: None, large_image_url: None }
    }

    pub fn small_image_url(self, url: String) -> (r: Self)
        ensures
            r.small_image_url == Some(url),
            r.large_image_url == self.large_image_url,
    {
        Image { small_image_url: Some(url), ..self }
    }

    pub fn large_image_url(self, url: String) -> (r: Self)
        ensures
            r.large_image_url == Some(url),
            r.small_image_url == self.small_image_url,
    {
        Image { large_image_url: Some(url), ..self }
    }
}

impl Default for Image {
    fn default() -> (r: Self)
        ensures
            r.small_image_url is None,
            r.large_image_url is None,
    {
        Image { small_image_url: None, large_image_url: None }
    }
}

/// A visual card; the populated fields follow the card type.
#[derive(Debug, Clone)]
pub struct Card {
    pub card_type: CardType,
    pub title: Option<String>,
    pub content: Option<String>,
    pub text: Option<String>,
    pub image: Option<Image>,
    pub permissions: Option<Vec<String>>,
}

impl Card {
    /// Constructs a simple card: a title with body content.
    pub fn simple(title: &str, text: &str) -> (r: Card)
        ensures
            r.card_type == CardType::Simple,
            r.title matches Some(t) && t@ == title@,
            r.content matches Some(c) && c@ == text@,
            r.text is None,
            r.image is None,
            r.permissions is None,
    {
        Card {
            card_type: CardType::Simple,
            title: Some(title.to_owned()),
            content: Some(text.to_owned()),
            text: None,
            image: None,
            permissions: None,
        }
    }

    /// Constructs a standard card: a title, text and an image.
    pub fn standard(title: &str, text: &str, image: Image) -> (r: Card)
        ensures
            r.card_type == CardType::Standard,
            r.title matches Some(t) && t@ == title@,
            r.text matches Some(t) && t@ == text@,
            r.content is None,
            r.image == Some(image),
            r.permissions is None,
    {
        Card {
            card_type: CardType::Standard,
            title: Some(title.to_owned()),
            content: None,
            text: Some(text.to_owned()),
            image: Some(image),
            permissions: None,
        }
    }

    /// Constructs a link account card.
    pub fn link_account() -> (r: Card)
        ensures
            r.card_type == CardType::LinkAccount,
            r.title is None,
            r.content is None,
            r.text is None,
            r.image is None,
            r.permissions is None,
    {
        Card {
            card_type: CardType::LinkAccount,
            title: None,
            content: None,
            text: None,
            image: None,
            permissions: None,
        }
    }

    /// Constructs a permissions request card carrying the requested
    /// permissions.
    pub fn ask_for_permission(permissions: Vec<String>) -> (r: Card)
        ensures
            r.card_type == CardType::AskForPermission,
            r.title is None,
            r.content is None,
            r.text is None,
            r.image is None,
            r.permissions == Some(permissions),
    {
        Card {
            card_type: CardType::AskForPermission,
            title: None,
            content: None,
            text: None,
            image: None,
            permissions: Some(permissions),
        }
    }
}

/// A reprompt: required speech once a reprompt exists at all.
#[derive(Debug, Clone)]
pub struct Reprompt {
    pub output_speech: Speech,
}

/// A device directive: a closed tagged union, discriminated on the wire by
/// a `type` field with a fixed literal per variant.
#[derive(Debug, Clone)]
pub enum Directive {
    AlexaPresentationHTMLStartDirective(AlexaPresentationHTMLStartDirective),
}

/// The presentation-start directive: presentation data, the request for the
/// presentation document, its configuration, and its transformers.
#[derive(Debug, Clone)]
pub struct AlexaPresentationHTMLStartDirective {
    pub data: KvMap<String>,
    pub request: AlexaPresentationHTMLStartDirectiveRequest,
    pub configuration: AlexaPresentationHTMLStartDirectiveConfiguration,
    pub transformers: Vec<AlexaPresentationHTMLStartDirectiveTransformer>,
}

impl AlexaPresentationHTMLStartDirective {
    pub fn new(
        data: KvMap<String>,
        request: AlexaPresentationHTMLStartDirectiveRequest,
        configuration: AlexaPresentationHTMLStartDirectiveConfiguration,
        transformers: Vec<AlexaPresentationHTMLStartDirectiveTransformer>,
    ) -> (r: Self)
        ensures
            r.data == data,
            r.request == request,
            r.configuration == configuration,
            r.transformers == transformers,
    {
        Self { data, request, configuration, transformers }
    }
}

/// The request part of the presentation-start directive; the method
/// defaults to `GET`.
#[derive(Debug, Clone)]
pub struct AlexaPresentationHTMLStartDirectiveRequest {
    pub uri: String,
    pub method: String,
    pub headers: KvMap<String>,
}

impl AlexaPresentationHTMLStartDirectiveRequest {
    pub fn new(uri: String) -> (r: Self)
        ensures
            r.uri == uri,
            r.method@ == "GET"@,
            r.headers.wf(),
            r.headers.spec_keys().len() == 0,
    {
        AlexaPresentationHTMLStartDirectiveRequest::new_with_headers(uri, KvMap::new())
    }

    pub fn new_with_headers(uri: String, headers: KvMap<String>) -> (r: Self)
        ensures
            r.uri == uri,
            r.method@ == "GET"@,
            r.headers == headers,
    {
        Self { uri, method: String::from_str("GET"), headers }
    }
}

/// The configuration part of the presentation-start directive.
#[derive(Debug, Clone)]
pub struct AlexaPresentationHTMLStartDirectiveConfiguration {
    pub timeout_in_seconds: Option<u32>,
}

impl AlexaPresentationHTMLStartDirectiveConfiguration {
    pub fn new(timeout_in_seconds: u32) -> (r: Self)
        ensures
            r.timeout_in_seconds == Some(timeout_in_seconds),
    {
        Self { timeout_in_seconds: Some(timeout_in_seconds) }
    }
}

/// One transformer of the presentation-start directive.
#[derive(Debug, Clone)]
pub struct AlexaPresentationHTMLStartDirectiveTransformer {
    pub input_path: String,
    pub output_name: Option<String>,
    pub transformer: AlexaPresentationHTMLStartDirectiveTransformerType,
}

#[derive(Debug, Clone, Copy, PartialEq, Eq, Structural)]
pub enum AlexaPresentationHTMLStartDirectiveTransformerType {
    SsmlToSpeech,
    TextToSpeech,
}

impl AlexaPresentationHTMLStartDirectiveTransformerType {
    /// The wire spelling of the transformer kind.
    pub open spec fn spec_str(self) -> Seq<char> {
        match self {
            AlexaPresentationHTMLStartDirectiveTransformerType::SsmlToSpeech => "ssmlToSpeech"@,
            AlexaPresentationHTMLStartDirectiveTransformerType::TextToSpeech => "textToSpeech"@,
        }
    }

    pub fn as_str(&self) -> (r: &'static str)
        ensures
            r@ == self.spec_str(),
    {
        match *self {
            AlexaPresentationHTMLStartDirectiveTransformerType::SsmlToSpeech => "ssmlToSpeech",
            AlexaPresentationHTMLStartDirectiveTransformerType::TextToSpeech => "textToSpeech",
        }
    }
}

/// The body of the outbound envelope. Every optional or empty field is
/// omitted from the serialized output, not emitted as null or empty.
#[derive(Debug, Clone)]
pub struct ResBody {
    pub output_speech: Option<Speech>,
    pub card: Option<Card>,
    pub reprompt: Option<Reprompt>,
    pub should_end_session: Option<bool>,
    pub directives: Vec<Directive>,
}

/// The outbound envelope: protocol version, optional session attributes,
/// and the response body, grown by the builder methods.
#[derive(Debug, Clone)]
pub struct Response {
    pub version: String,
    pub session_attributes: Option<KvMap<String>>,
    pub body: ResBody,
}

impl Response {
    /// The session-attributes maps (the outer one and those inside the
    /// directives) carry distinct keys.
    pub open spec fn wf(self) -> bool {
        &&& match self.session_attributes {
            Some(m) => m.wf(),
            None => true,
        }
        &&& forall|i: int|
            0 <= i < self.body.directives.len() ==> (#[trigger] self.body.directives[i]).wf()
    }

    /// Constructs a new response with only required elements.
    pub fn new(should_end: Option<bool>) -> (r: Response)
        ensures
            r.wf(),
            r.version@ == "1.0"@,
            r.session_attributes is None,
            r.body.output_speech is None,
            r.body.card is None,
            r.body.reprompt is None,
            r.body.should_end_session == should_end,
            r.body.directives@ =~= Seq::<Directive>::empty(),
    {
        Response {
            version: String::from_str("1.0"),
            session_attributes: None,
            body: ResBody {
                output_speech: None,
                card: None,
                reprompt: None,
                should_end_session: should_end,
                directives: Vec::new(),
            },
        }
    }

    /// Constructs a basic plain response with a simple card.
    pub fn new_simple(title: &str, text: &str) -> (r: Response)
        ensures
            r.wf(),
            r.version@ == "1.0"@,
            r.session_attributes is None,
            r.body.should_end_session == Some(true),
            r.body.card matches Some(c) && c.card_type == CardType::Simple && (c.title matches
                Some(t) && t@ == title@) && (c.content matches Some(x) && x@ == text@) && c.text
                is None && c.image is None && c.permissions is None,
            r.body.output_speech matches Some(s) && s.speech_type == SpeechType::Plain && (s.text
                matches Some(x) && x@ == text@) && s.ssml is None && s.play_behavior is None,
            r.body.reprompt is None,
            r.body.directives@ =~= Seq::<Directive>::empty(),
    {
        Response::simple(title, text)
    }

    /// Constructs a basic plain response with a simple card: the session
    /// ends, the card carries the title and text, and the text is also the
    /// plain speech.
    pub fn simple(title: &str, text: &str) -> (r: Response)
        ensures
            r.wf(),
            r.version@ == "1.0"@,
            r.session_attributes is None,
            r.body.should_end_session == Some(true),
            r.body.card matches Some(c) && c.card_type == CardType::Simple && (c.title matches
                Some(t) && t@ == title@) && (c.content matches Some(x) && x@ == text@) && c.text
                is None && c.image is None && c.permissions is None,
            r.body.output_speech matches Some(s) && s.speech_type == SpeechType::Plain && (s.text
                matches Some(x) && x@ == text@) && s.ssml is None && s.play_behavior is None,
            r.body.reprompt is None,
            r.body.directives@ =~= Seq::<Directive>::empty(),
    {
        Response::new(Some(true)).card(Card::simple(title, text)).speech(Speech::plain(text))
    }

    /// Constructs an empty response ending the session.
    pub fn end() -> (r: Response)
        ensures
            r.wf(),
            r.version@ == "1.0"@,
            r.session_attributes is None,
            r.body.output_speech is None,
            r.body.card is None,
            r.body.reprompt is None,
            r.body.should_end_session == Some(true),
            r.body.directives@ =~= Seq::<Directive>::empty(),
    {
        Response::new(Some(true))
    }

    /// Adds a speech element to the response, replacing any existing one.
    pub fn speech(self, speech: Speech) -> (r: Self)
        ensures
            r.body.output_speech == Some(speech),
            r.version == self.version,
            r.session_attributes == self.session_attributes,
            r.body.card == self.body.card,
            r.body.reprompt == self.body.reprompt,
            r.body.should_end_session == self.body.should_end_session,
            r.body.directives == self.body.directives,
    {
        Response { body: ResBody { output_speech: Some(speech), ..self.body }, ..self }
    }

    /// Adds a card to the response, replacing any existing one.
    pub fn card(self, card: Card) -> (r: Self)
        ensures
            r.body.card == Some(card),
            r.version == self.version,
            r.session_attributes == self.session_attributes,
            r.body.output_speech == self.body.output_speech,
            r.body.reprompt == self.body.reprompt,
            r.body.should_end_session == self.body.should_end_session,
            r.body.directives == self.body.directives,
    {
        Response { body: ResBody { card: Some(card), ..self.body }, ..self }
    }

    /// The session attributes as a mapping; empty while none were set.
    pub open spec fn spec_attributes(self) -> Map<Seq<char>, Seq<char>> {
        match self.session_attributes {
            Some(m) => m@,
            None => Map::empty(),
        }
    }

    /// Upserts an attribute key/value pair into the session attributes,
    /// lazily creating the mapping on first use; attributes can be read on
    /// the next request for basic state persistence. The last value written
    /// under a key wins.
    pub fn add_attribute(&mut self, key: &str, val: &str)
        requires
            old(self).wf(),
        ensures
            final(self).wf(),
            final(self).session_attributes matches Some(m) && m.wf() && m.spec_keys().len() > 0
                && m@ == old(self).spec_attributes().insert(key@, val@),
            final(self).version == old(self).version,
            final(self).body == old(self).body,
    {
        let mut h = match self.session_attributes.take() {
            Some(h) => h,
            None => KvMap::<String>::new(),
        };
        let ghost h0 = h;
        h.insert(key.to_owned(), val.to_owned());
        proof {
            h0.lemma_view_contains_key(key@);
            if h0@.contains_key(key@) {
                let i = choose|i: int|
                    0 <= i < h0.spec_keys().len() && h0.spec_keys()[i] == key@;
                assert(h.spec_keys().len() > 0);
            }
        }
        self.session_attributes = Some(h);
    }

    /// Appends a directive; the order of addition is preserved and is
    /// significant on the wire.
    pub fn add_directive(&mut self, directive: Directive)
        requires
            old(self).wf(),
            directive.wf(),
        ensures
            final(self).wf(),
            final(self).body.directives@ == old(self).body.directives@.push(directive),
            final(self).version == old(self).version,
            final(self).session_attributes == old(self).session_attributes,
            final(self).body.output_speech == old(self).body.output_speech,
            final(self).body.card == old(self).body.card,
            final(self).body.reprompt == old(self).body.reprompt,
            final(self).body.should_end_session == old(self).body.should_end_session,
    {
        self.body.directives.push(directive);
    }
}

impl Directive {
    /// The key/value maps inside the directive carry distinct keys.
    pub open spec fn wf(self) -> bool {
        match self {
            Directive::AlexaPresentationHTMLStartDirective(d) => d.data.wf() && d.request.headers.wf(),
        }
    }
}

/// A singleton object entry for a present optional string, and nothing for
/// an absent one: the omit-if-absent rule, stated once.
pub open spec fn opt_str_entry(key: Seq<char>, v: Option<String>) -> Seq<(Seq<char>, JsonV)> {
    match v {
        Some(s) => seq![(key, JsonV::Str(s@))],
        None => Seq::empty(),
    }
}

/// Object entries of a string-to-string mapping, in its entry order.
pub open spec fn kv_entries(s: Seq<(Seq<char>, Seq<char>)>) -> Seq<(Seq<char>, JsonV)>
    decreases s.len(),
{
    if s.len() == 0 {
        Seq::empty()
    } else {
        kv_entries(s.drop_last()).push((s.last().0, JsonV::Str(s.last().1)))
    }
}

/// Array items of a string sequence.
pub open spec fn str_items(s: Seq<String>) -> Seq<JsonV>
    decreases s.len(),
{
    if s.len() == 0 {
        Seq::empty()
    } else {
        str_items(s.drop_last()).push(JsonV::Str(s.last()@))
    }
}

/// The wire image object: both URL fields are optional and omitted when
/// absent.
pub open spec fn image_json(i: Image) -> JsonV {
    JsonV::Obj(
        opt_str_entry("smallImageUrl"@, i.small_image_url) + opt_str_entry(
            "largeImageUrl"@,
            i.large_image_url,
        ),
    )
}

/// The wire speech object: the type tag, then whichever of the optional
/// fields is present.
pub open spec fn speech_json(s: Speech) -> JsonV {
    JsonV::Obj(
        seq![("type"@, JsonV::Str(s.speech_type.spec_str()))] + opt_str_entry("text"@, s.text)
            + opt_str_entry("ssml"@, s.ssml) + (match s.play_behavior {
            Some(b) => seq![("playBehavior"@, JsonV::Str(b.spec_str()))],
            None => Seq::empty(),
        }),
    )
}

/// The wire card object: the type tag, then each optional field that is
/// present.
pub open spec fn card_json(c: Card) -> JsonV {
    JsonV::Obj(
        seq![("type"@, JsonV::Str(c.card_type.spec_str()))] + opt_str_entry("title"@, c.title)
            + opt_str_entry("content"@, c.content) + opt_str_entry("text"@, c.text) + (match c.image {
            Some(i) => seq![("image"@, image_json(i))],
            None => Seq::empty(),
        }) + (match c.permissions {
            Some(p) => seq![("permissions"@, JsonV::Arr(str_items(p@)))],
            None => Seq::empty(),
        }),
    )
}

/// The wire reprompt object: its speech is required.
pub open spec fn reprompt_json(r: Reprompt) -> JsonV {
    JsonV::Obj(seq![("outputSpeech"@, speech_json(r.output_speech))])
}

/// The wire transformer object.
pub open spec fn transformer_json(t: AlexaPresentationHTMLStartDirectiveTransformer) -> JsonV {
    JsonV::Obj(
        seq![("inputPath"@, JsonV::Str(t.input_path@))] + opt_str_entry("outputName"@, t.output_name)
            + seq![("transformer"@, JsonV::Str(t.transformer.spec_str()))],
    )
}

/// Array items of a transformer sequence, in order.
pub open spec fn transformer_items(s: Seq<AlexaPresentationHTMLStartDirectiveTransformer>) -> Seq<
    JsonV,
>
    decreases s.len(),
{
    if s.len() == 0 {
        Seq::empty()
    } else {
        transformer_items(s.drop_last()).push(transformer_json(s.last()))
    }
}

/// The wire request object of the presentation-start directive: `uri` and
/// `method` always, `headers` only when non-empty.
pub open spec fn directive_request_json(r: AlexaPresentationHTMLStartDirectiveRequest) -> JsonV {
    JsonV::Obj(
        seq![("uri"@, JsonV::Str(r.uri@)), ("method"@, JsonV::Str(r.method@))] + (if r.headers.spec_keys().len()
            > 0 {
            seq![("headers"@, JsonV::Obj(kv_entries(r.headers.entries_view())))]
        } else {
            Seq::empty()
        }),
    )
}

/// The wire configuration object of the presentation-start directive.
pub open spec fn directive_configuration_json(
    c: AlexaPresentationHTMLStartDirectiveConfiguration,
) -> JsonV {
    JsonV::Obj(
        match c.timeout_in_seconds {
            Some(t) => seq![("timeoutInSeconds"@, JsonV::Num(t as nat))],
            None => Seq::empty(),
        },
    )
}

/// The wire directive object: the fixed `type` literal of the variant,
/// then the variant's fields, `data` and `transformers` only when
/// non-empty.
pub open spec fn directive_json(d: Directive) -> JsonV {
    match d {
        Directive::AlexaPresentationHTMLStartDirective(x) => JsonV::Obj(
            seq![("type"@, JsonV::Str("Alexa.Presentation.HTML.Start"@))] + (if x.data.spec_keys().len()
                > 0 {
                seq![("data"@, JsonV::Obj(kv_entries(x.data.entries_view())))]
            } else {
                Seq::empty()
            }) + seq![
                ("request"@, directive_request_json(x.request)),
                ("configuration"@, directive_configuration_json(x.configuration)),
            ] + (if x.transformers.len() > 0 {
                seq![("transformers"@, JsonV::Arr(transformer_items(x.transformers@)))]
            } else {
                Seq::empty()
            }),
        ),
    }
}

/// Array items of a directive sequence, in order of addition.
pub open spec fn directive_items(s: Seq<Directive>) -> Seq<JsonV>
    decreases s.len(),
{
    if s.len() == 0 {
        Seq::empty()
    } else {
        directive_items(s.drop_last()).push(directive_json(s.last()))
    }
}

/// The wire response body: every absent optional field and the empty
/// directive list are omitted.
pub open spec fn res_body_json(b: ResBody) -> JsonV {
    JsonV::Obj(
        (match b.output_speech {
            Some(s) => seq![("outputSpeech"@, speech_json(s))],
            None => Seq::empty(),
        }) + (match b.card {
            Some(c) => seq![("card"@, card_json(c))],
            None => Seq::empty(),
        }) + (match b.reprompt {
            Some(r) => seq![("reprompt"@, reprompt_json(r))],
            None => Seq::empty(),
        }) + (match b.should_end_session {
            Some(e) => seq![("shouldEndSession"@, JsonV::Bool(e))],
            None => Seq::empty(),
        }) + (if b.directives.len() > 0 {
            seq![("directives"@, JsonV::Arr(directive_items(b.directives@)))]
        } else {
            Seq::empty()
        }),
    )
}

/// The wire envelope: the version, the session attributes only when
/// present and non-empty, and the response body under `response`.
pub open spec fn response_json(r: Response) -> JsonV {
    JsonV::Obj(
        seq![("version"@, JsonV::Str(r.version@))] + (match r.session_attributes {
            Some(m) => if m.spec_keys().len() > 0 {
                seq![("sessionAttributes"@, JsonV::Obj(kv_entries(m.entries_view())))]
            } else {
                Seq::empty()
            },
            None => Seq::empty(),
        }) + seq![("response"@, res_body_json(r.body))],
    )
}

fn kv_to_json_entries(m: &KvMap<String>) -> (es: Vec<(String, Json)>)
    ensures
        entries_view(es@) == kv_entries(m.entries_view()),
{
    let mut es: Vec<(String, Json)> = Vec::new();
    proof {
        assert(entries_view(es@) =~= kv_entries(m.entries_view().take(0)));
    }
    let n = m.len();
    for i in 0..n
        invariant
            n == m.entries_view().len(),
            es@.len() == i,
            entries_view(es@) == kv_entries(m.entries_view().take(i as int)),
    {
        let ghost prev = es@;
        let k = m.key_at(i).clone();
        let v = m.value_at(i).clone();
        es.push((k, Json::Str(v)));
        proof {
            assert(es@ == prev.push((k, Json::Str(v))));
            assert(es@.drop_last() =~= prev);
            assert(es@.last() == (k, Json::Str(v)));
            assert(k@ == m.entries_view()[i as int].0);
            assert(v@ == m.entries_view()[i as int].1);
            assert(entries_view(es@) == entries_view(prev).push((k@, json_view(Json::Str(v)))));
            assert(json_view(Json::Str(v)) == JsonV::Str(v@));
            assert(m.entries_view().take(i + 1).drop_last() =~= m.entries_view().take(i as int));
            assert(m.entries_view().take(i + 1).last() == m.entries_view()[i as int]);
            assert(kv_entries(m.entries_view().take(i + 1)) == kv_entries(
                m.entries_view().take(i as int),
            ).push((m.entries_view()[i as int].0, JsonV::Str(m.entries_view()[i as int].1))));
            assert(entries_view(es@) =~= kv_entries(m.entries_view().take(i + 1)));
        }
    }
    proof {
        assert(m.entries_view().take(n as int) =~= m.entries_view());
    }
    es
}

fn str_vec_to_json_items(xs: &Vec<String>) -> (items: Vec<Json>)
    ensures
        items_view(items@) == str_items(xs@),
{
    let mut items: Vec<Json> = Vec::new();
    proof {
        assert(items_view(items@) =~= str_items(xs@.take(0)));
    }
    let n = xs.len();
    for i in 0..n
        invariant
            n == xs@.len(),
            items@.len() == i,
            items_view(items@) == str_items(xs@.take(i as int)),
    {
        let ghost prev = items@;
        let s = xs[i].clone();
        items.push(Json::Str(s));
        proof {
            assert(items@ == prev.push(Json::Str(s)));
            assert(items@.drop_last() =~= prev);
            assert(items@.last() == Json::Str(s));
            assert(s@ == xs@[i as int]@);
            assert(items_view(items@) == items_view(prev).push(json_view(Json::Str(s))));
            assert(json_view(Json::Str(s)) == JsonV::Str(s@));
            assert(xs@.take(i + 1).drop_last() =~= xs@.take(i as int));
            assert(xs@.take(i + 1).last() == xs@[i as int]);
            assert(str_items(xs@.take(i + 1)) == str_items(xs@.take(i as int)).push(
                JsonV::Str(xs@[i as int]@),
            ));
            assert(items_view(items@) =~= str_items(xs@.take(i + 1)));
        }
    }
    proof {
        assert(xs@.take(n as int) =~= xs@);
    }
    items
}

impl Image {
    /// Encodes the image following the omit-if-absent rules.
    pub fn to_json(&self) -> (j: Json)
        ensures
            j@ == image_json(*self),
    {
        let mut es: Vec<(String, Json)> = Vec::new();
        if let Some(u) = &self.small_image_url {
            es.push((String::from_str("smallImageUrl"), Json::Str(u.clone())));
        }
        if let Some(u) = &self.large_image_url {
            es.push((String::from_str("largeImageUrl"), Json::Str(u.clone())));
        }
        proof {
            lemma_entries_view(es@);
            assert(entries_view(es@) =~= image_json(*self)->Obj_0);
        }
        Json::Obj(es)
    }
}

impl Speech {
    /// Encodes the speech following the omit-if-absent rules.
    pub fn to_json(&self) -> (j: Json)
        ensures
            j@ == speech_json(*self),
    {
        let mut es: Vec<(String, Json)> = Vec::new();
        es.push((String::from_str("type"), Json::Str(self.speech_type.as_str().to_owned())));
        if let Some(t) = &self.text {
            es.push((String::from_str("text"), Json::Str(t.clone())));
        }
        if let Some(t) = &self.ssml {
            es.push((String::from_str("ssml"), Json::Str(t.clone())));
        }
        if let Some(b) = &self.play_behavior {
            es.push((String::from_str("playBehavior"), Json::Str(b.as_str().to_owned())));
        }
        proof {
            lemma_entries_view(es@);
            assert(entries_view(es@) =~= speech_json(*self)->Obj_0);
        }
        Json::Obj(es)
    }
}

impl Card {
    /// Encodes the card following the omit-if-absent rules.
    pub fn to_json(&self) -> (j: Json)
        ensures
            j@ == card_json(*self),
    {
        let mut es: Vec<(String, Json)> = Vec::new();
        es.push((String::from_str("type"), Json::Str(self.card_type.as_str().to_owned())));
        if let Some(t) = &self.title {
            es.push((String::from_str("title"), Json::Str(t.clone())));
        }
        if let Some(t) = &self.content {
            es.push((String::from_str("content"), Json::Str(t.clone())));
        }
        if let Some(t) = &self.text {
            es.push((String::from_str("text"), Json::Str(t.clone())));
        }
        if let Some(i) = &self.image {
            es.push((String::from_str("image"), i.to_json()));
        }
        if let Some(p) = &self.permissions {
            es.push((String::from_str("permissions"), Json::Arr(str_vec_to_json_items(p))));
        }
        proof {
            lemma_entries_view(es@);
            assert(entries_view(es@) =~= card_json(*self)->Obj_0);
        }
        Json::Obj(es)
    }
}

impl Reprompt {
    /// Encodes the reprompt.
    pub fn to_json(&self) -> (j: Json)
        ensures
            j@ == reprompt_json(*self),
    {
        let mut es: Vec<(String, Json)> = Vec::new();
        es.push((String::from_str("outputSpeech"), self.output_speech.to_json()));
        proof {
            lemma_entries_view(es@);
            assert(entries_view(es@) =~= reprompt_json(*self)->Obj_0);
        }
        Json::Obj(es)
    }
}

impl AlexaPresentationHTMLStartDirectiveTransformer {
    /// Encodes the transformer.
    pub fn to_json(&self) -> (j: Json)
        ensures
            j@ == transformer_json(*self),
    {
        let mut es: Vec<(String, Json)> = Vec::new();
        es.push((String::from_str("inputPath"), Json::Str(self.input_path.clone())));
        if let Some(o) = &self.output_name {
            es.push((String::from_str("outputName"), Json::Str(o.clone())));
        }
        es.push((String::from_str("transformer"), Json::Str(self.transformer.as_str().to_owned())));
        proof {
            lemma_entries_view(es@);
            assert(entries_view(es@) =~= transformer_json(*self)->Obj_0);
        }
        Json::Obj(es)
    }
}

fn transformers_to_json_items(xs: &Vec<AlexaPresentationHTMLStartDirectiveTransformer>) -> (items:
    Vec<Json>)
    ensures
        items_view(items@) == transformer_items(xs@),
{
    let mut items: Vec<Json> = Vec::new();
    proof {
        assert(items_view(items@) =~= transformer_items(xs@.take(0)));
    }
    let n = xs.len();
    for i in 0..n
        invariant
            n == xs@.len(),
            items@.len() == i,
            items_view(items@) == transformer_items(xs@.take(i as int)),
    {
        let ghost prev = items@;
        let jx = xs[i].to_json();
        items.push(jx);
        proof {
            assert(items@ == prev.push(jx));
            assert(items@.drop_last() =~= prev);
            assert(items@.last() == jx);
            assert(items_view(items@) == items_view(prev).push(json_view(jx)));
            assert(json_view(jx) == transformer_json(xs@[i as int]));
            assert(xs@.take(i + 1).drop_last() =~= xs@.take(i as int));
            assert(xs@.take(i + 1).last() == xs@[i as int]);
            assert(transformer_items(xs@.take(i + 1)) == transformer_items(xs@.take(i as int)).push(
                transformer_json(xs@[i as int]),
            ));
            assert(items_view(items@) =~= transformer_items(xs@.take(i + 1)));
        }
    }
    proof {
        assert(xs@.take(n as int) =~= xs@);
    }
    items
}

impl AlexaPresentationHTMLStartDirectiveRequest {
    /// Encodes the request part; `headers` is omitted when empty.
    pub fn to_json(&self) -> (j: Json)
        requires
            self.headers.wf(),
        ensures
            j@ == directive_request_json(*self),
    {
        let mut es: Vec<(String, Json)> = Vec::new();
        es.push((String::from_str("uri"), Json::Str(self.uri.clone())));
        es.push((String::from_str("method"), Json::Str(self.method.clone())));
        if self.headers.len() > 0 {
            es.push((String::from_str("headers"), Json::Obj(kv_to_json_entries(&self.headers))));
        }
        proof {
            lemma_entries_view(es@);
            assert(entries_view(es@) =~= directive_request_json(*self)->Obj_0);
        }
        Json::Obj(es)
    }
}

impl AlexaPresentationHTMLStartDirectiveConfiguration {
    /// Encodes the configuration part; the timeout is omitted when absent.
    pub fn to_json(&self) -> (j: Json)
        ensures
            j@ == directive_configuration_json(*self),
    {
        let mut es: Vec<(String, Json)> = Vec::new();
        if let Some(t) = self.timeout_in_seconds {
            es.push((String::from_str("timeoutInSeconds"), Json::Num(t as u64)));
        }
        proof {
            lemma_entries_view(es@);
            assert(entries_view(es@) =~= directive_configuration_json(*self)->Obj_0);
        }
        Json::Obj(es)
    }
}

impl Directive {
    /// Encodes the directive under its fixed wire `type` literal.
    pub fn to_json(&self) -> (j: Json)
        requires
            self.wf(),
        ensures
            j@ == directive_json(*self),
    {
        match self {
            Directive::AlexaPresentationHTMLStartDirective(x) => {
                let mut es: Vec<(String, Json)> = Vec::new();
                es.push(
                    (
                        String::from_str("type"),
                        Json::Str(String::from_str("Alexa.Presentation.HTML.Start")),
                    ),
                );
                if x.data.len() > 0 {
                    es.push((String::from_str("data"), Json::Obj(kv_to_json_entries(&x.data))));
                }
                es.push((String::from_str("request"), x.request.to_json()));
                es.push((String::from_str("configuration"), x.configuration.to_json()));
                if x.transformers.len() > 0 {
                    es.push(
                        (
                            String::from_str("transformers"),
                            Json::Arr(transformers_to_json_items(&x.transformers)),
                        ),
                    );
                }
                proof {
                    lemma_entries_view(es@);
                    assert(entries_view(es@) =~= directive_json(*self)->Obj_0);
                }
                Json::Obj(es)
            },
        }
    }
}

fn directives_to_json_items(xs: &Vec<Directive>) -> (items: Vec<Json>)
    requires
        forall|i: int| 0 <= i < xs.len() ==> (#[trigger] xs[i]).wf(),
    ensures
        items_view(items@) == directive_items(xs@),
{
    let mut items: Vec<Json> = Vec::new();
    proof {
        assert(items_view(items@) =~= directive_items(xs@.take(0)));
    }
    let n = xs.len();
    for i in 0..n
        invariant
            n == xs@.len(),
            items@.len() == i,
            forall|k: int| 0 <= k < xs@.len() ==> (#[trigger] xs@[k]).wf(),
            items_view(items@) == directive_items(xs@.take(i as int)),
    {
        let ghost prev = items@;
        let jx = xs[i].to_json();
        items.push(jx);
        proof {
            assert(items@ == prev.push(jx));
            assert(items@.drop_last() =~= prev);
            assert(items@.last() == jx);
            assert(items_view(items@) == items_view(prev).push(json_view(jx)));
            assert(json_view(jx) == directive_json(xs@[i as int]));
            assert(xs@.take(i + 1).drop_last() =~= xs@.take(i as int));
            assert(xs@.take(i + 1).last() == xs@[i as int]);
            assert(directive_items(xs@.take(i + 1)) == directive_items(xs@.take(i as int)).push(
                directive_json(xs@[i as int]),
            ));
            assert(items_view(items@) =~= directive_items(xs@.take(i + 1)));
        }
    }
    proof {
        assert(xs@.take(n as int) =~= xs@);
    }
    items
}

impl ResBody {
    /// Encodes the response body, omitting every absent optional field and
    /// the empty directive list.
    pub fn to_json(&self) -> (j: Json)
        requires
            forall|i: int| 0 <= i < self.directives.len() ==> (#[trigger] self.directives[i]).wf(),
        ensures
            j@ == res_body_json(*self),
    {
        let mut es: Vec<(String, Json)> = Vec::new();
        if let Some(s) = &self.output_speech {
            es.push((String::from_str("outputSpeech"), s.to_json()));
        }
        if let Some(c) = &self.card {
            es.push((String::from_str("card"), c.to_json()));
        }
        if let Some(r) = &self.reprompt {
            es.push((String::from_str("reprompt"), r.to_json()));
        }
        if let Some(e) = self.should_end_session {
            es.push((String::from_str("shouldEndSession"), Json::Bool(e)));
        }
        if self.directives.len() > 0 {
            es.push(
                (String::from_str("directives"), Json::Arr(directives_to_json_items(&self.directives))),
            );
        }
        proof {
            lemma_entries_view(es@);
            assert(entries_view(es@) =~= res_body_json(*self)->Obj_0);
        }
        Json::Obj(es)
    }
}

/// Writing the same attribute twice keeps only the last value: upserting
/// `v1` and then `v2` under one key leaves the mapping that upserting `v2`
/// alone would leave. This is the algebra behind `Response::add_attribute`,
/// whose contract states each upsert as a mapping insert.
pub proof fn lemma_attribute_last_write_wins(
    m: Map<Seq<char>, Seq<char>>,
    key: Seq<char>,
    v1: Seq<char>,
    v2: Seq<char>,
)
    ensures
        m.insert(key, v1).insert(key, v2) =~= m.insert(key, v2),
{
}

/// A non-empty attribute mapping is never omitted: the encoded envelope
/// carries the `sessionAttributes` key.
pub proof fn lemma_attributes_present(r: Response)
    requires
        r.session_attributes matches Some(m) && m.spec_keys().len() > 0,
    ensures
        jlookup(response_json(r), "sessionAttributes"@) is Some,
{
    reveal_strlit("version");
    reveal_strlit("sessionAttributes");
    let es = response_json(r)->Obj_0;
    assert(es[0].0 == "version"@);
    assert(es[1].0 == "sessionAttributes"@);
    assert("version"@.len() != "sessionAttributes"@.len());
    assert(crate::json::obj_lookup(es, "sessionAttributes"@) == crate::json::obj_lookup(
        es.drop_first(),
        "sessionAttributes"@,
    ));
    assert(es.drop_first()[0] == es[1]);
}

/// A response carrying no attributes and no directives omits both keys
/// entirely from its encoding: neither the envelope object nor the body
/// object has the corresponding entry.
pub proof fn lemma_empty_parts_omitted(r: Response)
    requires
        r.session_attributes is None,
        r.body.directives@ == Seq::<Directive>::empty(),
    ensures
        jlookup(response_json(r), "sessionAttributes"@) is None,
        jlookup(res_body_json(r.body), "directives"@) is None,
{
    reveal_strlit("version");
    reveal_strlit("response");
    reveal_strlit("sessionAttributes");
    reveal_strlit("directives");
    reveal_strlit("outputSpeech");
    reveal_strlit("card");
    reveal_strlit("reprompt");
    reveal_strlit("shouldEndSession");
    let es = response_json(r)->Obj_0;
    assert forall|i: int| 0 <= i < es.len() implies (#[trigger] es[i]).0 != "sessionAttributes"@ by {
        assert(es[i].0 == "version"@ || es[i].0 == "response"@);
    }
    crate::json::lemma_obj_lookup_absent(es, "sessionAttributes"@);
    let bs = res_body_json(r.body)->Obj_0;
    assert forall|i: int| 0 <= i < bs.len() implies (#[trigger] bs[i]).0 != "directives"@ by {
        assert(bs[i].0 == "outputSpeech"@ || bs[i].0 == "card"@ || bs[i].0 == "reprompt"@ || bs[i].0
            == "shouldEndSession"@);
    }
    crate::json::lemma_obj_lookup_absent(bs, "directives"@);
}

/// Appending a directive appends exactly its encoding at the end of the
/// serialized directive sequence: the order of `Response::add_directive`
/// calls is the order on the wire.
pub proof fn lemma_directive_order_preserved(s: Seq<Directive>, d: Directive)
    ensures
        directive_items(s.push(d)) == directive_items(s).push(directive_json(d)),
{
    assert(s.push(d).drop_last() =~= s);
}

/// Each position of the serialized directive sequence is the encoding of
/// the directive added at that position.
pub proof fn lemma_directive_items_index(s: Seq<Directive>)
    ensures
        directive_items(s).len() == s.len(),
        forall|i: int| 0 <= i < s.len() ==> directive_items(s)[i] == directive_json(s[i]),
    decreases s.len(),
{
    if s.len() > 0 {
        lemma_directive_items_index(s.drop_last());
        assert forall|i: int| 0 <= i < s.len() implies directive_items(s)[i] == directive_json(
            s[i],
        ) by {
            if i < s.len() - 1 {
                assert(s.drop_last()[i] == s[i]);
            }
        }
    }
}

impl Response {
    /// Encodes the whole envelope: the version, the session attributes
    /// only when present and non-empty, and the response body.
    pub fn to_json(&self) -> (j: Json)
        requires
            self.wf(),
        ensures
            j@ == response_json(*self),
    {
        let mut es: Vec<(String, Json)> = Vec::new();
        es.push((String::from_str("version"), Json::Str(self.version.clone())));
        if let Some(m) = &self.session_attributes {
            if m.len() > 0 {
                es.push((String::from_str("sessionAttributes"), Json::Obj(kv_to_json_entries(m))));
            }
        }
        es.push((String::from_str("response"), self.body.to_json()));
        proof {
            lemma_entries_view(es@);
            assert(entries_view(es@) =~= response_json(*self)->Obj_0);
        }
        Json::Obj(es)
    }

    /// The serialized envelope: the JSON text of its encoding, with every
    /// omit-if-absent and omit-if-empty rule applied.
    pub fn to_json_string(&self) -> (s: String)
        requires
            self.wf(),
        ensures
            s@ == crate::json::json_text(response_json(*self)),
    {
        let j = self.to_json();
        j.to_text()
    }
}


impl AlexaPresentationHTMLStartDirectiveTransformerType {
    /// The transformer kind named by a tag; the set is closed.
    pub open spec fn of_tag(t: Seq<char>) -> Option<
        AlexaPresentationHTMLStartDirectiveTransformerType,
    > {
        if t == "ssmlToSpeech"@ {
            Some(AlexaPresentationHTMLStartDirectiveTransformerType::SsmlToSpeech)
        } else if t == "textToSpeech"@ {
            Some(AlexaPresentationHTMLStartDirectiveTransformerType::TextToSpeech)
        } else {
            None
        }
    }
}

impl AlexaPresentationHTMLStartDirectiveTransformer {
    pub open spec fn can_decode(j: JsonV) -> bool {
        &&& req_str(j, "inputPath"@)
        &&& opt_str_ok(j, "outputName"@)
        &&& req_str(j, "transformer"@)
        &&& AlexaPresentationHTMLStartDirectiveTransformerType::of_tag(
            str_of(j, "transformer"@),
        ) is Some
    }

    pub open spec fn decoded(j: JsonV, x: AlexaPresentationHTMLStartDirectiveTransformer) -> bool {
        &&& x.input_path@ == str_of(j, "inputPath"@)
        &&& opt_str_eq(x.output_name, opt_str_of(j, "outputName"@))
        &&& Some(x.transformer) == AlexaPresentationHTMLStartDirectiveTransformerType::of_tag(
            str_of(j, "transformer"@),
        )
    }

    /// Decodes a transformer; an unrecognized transformer tag is a decode
    /// error.
    pub fn from_json(j: &Json) -> (r: Result<
        AlexaPresentationHTMLStartDirectiveTransformer,
        DecodeError,
    >)
        ensures
            match r {
                Ok(x) => Self::can_decode(j@) && Self::decoded(j@, x),
                Err(e) => !Self::can_decode(j@) && e == DecodeError::Invalid,
            },
    {
        let input_path = match j.get("inputPath") {
            Some(Json::Str(s)) => s.clone(),
            _ => { return Err(DecodeError::Invalid) },
        };
        let output_name = match j.get("outputName") {
            None => None,
            Some(Json::Null) => None,
            Some(Json::Str(s)) => Some(s.clone()),
            Some(_) => { return Err(DecodeError::Invalid) },
        };
        let tag = match j.get("transformer") {
            Some(Json::Str(s)) => s,
            _ => { return Err(DecodeError::Invalid) },
        };
        let transformer = if crate::str_eq(tag.as_str(), "ssmlToSpeech") {
            AlexaPresentationHTMLStartDirectiveTransformerType::SsmlToSpeech
        } else if crate::str_eq(tag.as_str(), "textToSpeech") {
            AlexaPresentationHTMLStartDirectiveTransformerType::TextToSpeech
        } else {
            return Err(DecodeError::Invalid);
        };
        Ok(AlexaPresentationHTMLStartDirectiveTransformer { input_path, output_name, transformer })
    }
}

/// Every item decodes as a transformer.
pub open spec fn can_transformer_items(s: Seq<JsonV>) -> bool {
    forall|i: int|
        0 <= i < s.len() ==> AlexaPresentationHTMLStartDirectiveTransformer::can_decode(
            #[trigger] s[i],
        )
}

fn transformers_from_json(xs: &Vec<Json>) -> (r: Result<
    Vec<AlexaPresentationHTMLStartDirectiveTransformer>,
    DecodeError,
>)
    ensures
        match r {
            Ok(v) => can_transformer_items(items_view(xs@)) && v@.len() == xs@.len() && forall|
                i: int,
            |
                0 <= i < v@.len() ==> AlexaPresentationHTMLStartDirectiveTransformer::decoded(
                    items_view(xs@)[i],
                    #[trigger] v@[i],
                ),
            Err(e) => !can_transformer_items(items_view(xs@)) && e == DecodeError::Invalid,
        },
{
    let mut out: Vec<AlexaPresentationHTMLStartDirectiveTransformer> = Vec::new();
    let n = xs.len();
    for i in 0..n
        invariant
            n == xs@.len(),
            out@.len() == i,
            forall|k: int|
                0 <= k < i ==> AlexaPresentationHTMLStartDirectiveTransformer::can_decode(
                    #[trigger] items_view(xs@)[k],
                ),
            forall|k: int|
                0 <= k < i ==> AlexaPresentationHTMLStartDirectiveTransformer::decoded(
                    items_view(xs@)[k],
                    #[trigger] out@[k],
                ),
    {
        proof {
            crate::json::lemma_items_view(xs@);
        }
        match AlexaPresentationHTMLStartDirectiveTransformer::from_json(&xs[i]) {
            Ok(t) => out.push(t),
            Err(e) => {
                proof {
                    crate::json::lemma_items_view(xs@);
                    assert(!AlexaPresentationHTMLStartDirectiveTransformer::can_decode(
                        items_view(xs@)[i as int],
                    ));
                }
                return Err(e);
            },
        }
    }
    proof {
        crate::json::lemma_items_view(xs@);
    }
    Ok(out)
}

impl AlexaPresentationHTMLStartDirectiveConfiguration {
    pub open spec fn can_decode(j: JsonV) -> bool {
        match jlookup(j, "timeoutInSeconds"@) {
            None => true,
            Some(JsonV::Null) => true,
            Some(JsonV::Num(n)) => n <= 0xffff_ffff,
            Some(_) => false,
        }
    }

    pub open spec fn decoded(
        j: JsonV,
        x: AlexaPresentationHTMLStartDirectiveConfiguration,
    ) -> bool {
        match jlookup(j, "timeoutInSeconds"@) {
            None => x.timeout_in_seconds is None,
            Some(JsonV::Null) => x.timeout_in_seconds is None,
            Some(JsonV::Num(n)) => x.timeout_in_seconds matches Some(t) && t as nat == n,
            Some(_) => false,
        }
    }

    /// Decodes the configuration; the timeout is optional and must fit an
    /// unsigned 32-bit integer.
    pub fn from_json(j: &Json) -> (r: Result<
        AlexaPresentationHTMLStartDirectiveConfiguration,
        DecodeError,
    >)
        ensures
            match r {
                Ok(x) => Self::can_decode(j@) && Self::decoded(j@, x),
                Err(e) => !Self::can_decode(j@) && e == DecodeError::Invalid,
            },
    {
        let timeout_in_seconds = match j.get("timeoutInSeconds") {
            None => None,
            Some(Json::Null) => None,
            Some(Json::Num(n)) => {
                if *n <= 0xffff_ffff {
                    Some(*n as u32)
                } else {
                    return Err(DecodeError::Invalid);
                }
            },
            Some(_) => { return Err(DecodeError::Invalid) },
        };
        Ok(AlexaPresentationHTMLStartDirectiveConfiguration { timeout_in_seconds })
    }
}

impl AlexaPresentationHTMLStartDirectiveRequest {
    pub open spec fn can_decode(j: JsonV) -> bool {
        &&& req_str(j, "uri"@)
        &&& req_str(j, "method"@)
        &&& match jlookup(j, "headers"@) {
            None => true,
            Some(JsonV::Obj(es)) => all_str_values(es),
            Some(_) => false,
        }
    }

    pub open spec fn decoded(j: JsonV, x: AlexaPresentationHTMLStartDirectiveRequest) -> bool {
        &&& x.uri@ == str_of(j, "uri"@)
        &&& x.method@ == str_of(j, "method"@)
        &&& x.headers.wf()
        &&& match jlookup(j, "headers"@) {
            None => x.headers@ == Map::<Seq<char>, Seq<char>>::empty() && x.headers.spec_keys()
                == Seq::<Seq<char>>::empty(),
            Some(JsonV::Obj(es)) => x.headers@ == str_obj_map(es) && x.headers.spec_keys()
                == first_keys(es),
            Some(_) => false,
        }
    }

    /// Decodes the request part; `uri` and `method` are required, and an
    /// omitted `headers` object reads as empty, matching its omission on
    /// encode.
    pub fn from_json(j: &Json) -> (r: Result<
        AlexaPresentationHTMLStartDirectiveRequest,
        DecodeError,
    >)
        ensures
            match r {
                Ok(x) => Self::can_decode(j@) && Self::decoded(j@, x),
                Err(e) => !Self::can_decode(j@) && e == DecodeError::Invalid,
            },
    {
        let uri = match j.get("uri") {
            Some(Json::Str(s)) => s.clone(),
            _ => { return Err(DecodeError::Invalid) },
        };
        let method = match j.get("method") {
            Some(Json::Str(s)) => s.clone(),
            _ => { return Err(DecodeError::Invalid) },
        };
        let headers = match j.get("headers") {
            None => {
                let m = KvMap::<String>::new();
                proof {
                    assert(m.spec_keys() =~= Seq::<Seq<char>>::empty());
                }
                m
            },
            Some(Json::Obj(es)) => match str_map_from_entries(es) {
                Ok(m) => m,
                Err(e) => { return Err(e) },
            },
            Some(_) => { return Err(DecodeError::Invalid) },
        };
        Ok(AlexaPresentationHTMLStartDirectiveRequest { uri, method, headers })
    }
}

impl AlexaPresentationHTMLStartDirective {
    pub open spec fn can_decode(j: JsonV) -> bool {
        &&& match jlookup(j, "data"@) {
            None => true,
            Some(JsonV::Obj(es)) => all_str_values(es),
            Some(_) => false,
        }
        &&& jlookup(j, "request"@) matches Some(r)
            && AlexaPresentationHTMLStartDirectiveRequest::can_decode(r)
        &&& jlookup(j, "configuration"@) matches Some(c)
            && AlexaPresentationHTMLStartDirectiveConfiguration::can_decode(c)
        &&& match jlookup(j, "transformers"@) {
            None => true,
            Some(JsonV::Arr(items)) => can_transformer_items(items),
            Some(_) => false,
        }
    }

    pub open spec fn decoded(j: JsonV, x: AlexaPresentationHTMLStartDirective) -> bool {
        &&& x.data.wf()
        &&& match jlookup(j, "data"@) {
            None => x.data@ == Map::<Seq<char>, Seq<char>>::empty() && x.data.spec_keys()
                == Seq::<Seq<char>>::empty(),
            Some(JsonV::Obj(es)) => x.data@ == str_obj_map(es) && x.data.spec_keys() == first_keys(
                es,
            ),
            Some(_) => false,
        }
        &&& AlexaPresentationHTMLStartDirectiveRequest::decoded(
            jlookup(j, "request"@)->Some_0,
            x.request,
        )
        &&& AlexaPresentationHTMLStartDirectiveConfiguration::decoded(
            jlookup(j, "configuration"@)->Some_0,
            x.configuration,
        )
        &&& match jlookup(j, "transformers"@) {
            None => x.transformers@.len() == 0,
            Some(JsonV::Arr(items)) => x.transformers@.len() == items.len() && forall|i: int|
                0 <= i < items.len() ==> AlexaPresentationHTMLStartDirectiveTransformer::decoded(
                    items[i],
                    #[trigger] x.transformers@[i],
                ),
            Some(_) => false,
        }
    }

    /// Decodes the presentation-start payload; omitted `data` and
    /// `transformers` read as empty, matching their omission on encode.
    pub fn from_json(j: &Json) -> (r: Result<AlexaPresentationHTMLStartDirective, DecodeError>)
        ensures
            match r {
                Ok(x) => Self::can_decode(j@) && Self::decoded(j@, x),
                Err(e) => !Self::can_decode(j@) && e == DecodeError::Invalid,
            },
    {
        let data = match j.get("data") {
            None => {
                let m = KvMap::<String>::new();
                proof {
                    assert(m.spec_keys() =~= Seq::<Seq<char>>::empty());
                }
                m
            },
            Some(Json::Obj(es)) => match str_map_from_entries(es) {
                Ok(m) => m,
                Err(e) => { return Err(e) },
            },
            Some(_) => { return Err(DecodeError::Invalid) },
        };
        let request = match j.get("request") {
            Some(v) => match AlexaPresentationHTMLStartDirectiveRequest::from_json(v) {
                Ok(x) => x,
                Err(e) => { return Err(e) },
            },
            None => { return Err(DecodeError::Invalid) },
        };
        let configuration = match j.get("configuration") {
            Some(v) => match AlexaPresentationHTMLStartDirectiveConfiguration::from_json(v) {
                Ok(x) => x,
                Err(e) => { return Err(e) },
            },
            None => { return Err(DecodeError::Invalid) },
        };
        let transformers = match j.get("transformers") {
            None => Vec::new(),
            Some(Json::Arr(items)) => match transformers_from_json(items) {
                Ok(v) => {
                    proof {
                        crate::json::lemma_items_view(items@);
                    }
                    v
                },
                Err(e) => { return Err(e) },
            },
            Some(_) => { return Err(DecodeError::Invalid) },
        };
        Ok(AlexaPresentationHTMLStartDirective { data, request, configuration, transformers })
    }
}

impl Directive {
    pub open spec fn can_decode(j: JsonV) -> bool {
        &&& req_str(j, "type"@)
        &&& str_of(j, "type"@) == "Alexa.Presentation.HTML.Start"@
        &&& AlexaPresentationHTMLStartDirective::can_decode(j)
    }

    pub open spec fn decoded(j: JsonV, d: Directive) -> bool {
        match d {
            Directive::AlexaPresentationHTMLStartDirective(x) =>
                AlexaPresentationHTMLStartDirective::decoded(j, x),
        }
    }

    /// Decodes a directive, dispatching purely on the `type` field: the
    /// set of tags is closed, and an unrecognized or missing tag is a
    /// decode error.
    pub fn from_json(j: &Json) -> (r: Result<Directive, DecodeError>)
        ensures
            match r {
                Ok(d) => Self::can_decode(j@) && Self::decoded(j@, d),
                Err(e) => !Self::can_decode(j@) && e == DecodeError::Invalid,
            },
    {
        let tag = match j.get("type") {
            Some(Json::Str(s)) => s,
            _ => { return Err(DecodeError::Invalid) },
        };
        if crate::str_eq(tag.as_str(), "Alexa.Presentation.HTML.Start") {
            match AlexaPresentationHTMLStartDirective::from_json(j) {
                Ok(x) => Ok(Directive::AlexaPresentationHTMLStartDirective(x)),
                Err(e) => Err(e),
            }
        } else {
            Err(DecodeError::Invalid)
        }
    }
}

} // verus!
