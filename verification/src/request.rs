//! The inbound envelope: the decode target for a request, and the derived
//! locale and intent classifiers.

use vstd::prelude::*;

use crate::json::{entries_view, items_view, jlookup, Json, JsonV};
use crate::kvmap::KvMap;

verus! {

/// Why a decode failed: the payload was not well-formed JSON text, or it
/// was well-formed but violated the schema (a required field absent or
/// mistyped).
#[derive(Debug, Clone, Copy, PartialEq, Eq, Structural)]
pub enum DecodeError {
    Malformed,
    Invalid,
}

/// A required string field: present and a string.
pub open spec fn req_str(j: JsonV, key: Seq<char>) -> bool {
    jlookup(j, key) matches Some(v) && v is Str
}

/// The character sequence of a required string field.
pub open spec fn str_of(j: JsonV, key: Seq<char>) -> Seq<char> {
    jlookup(j, key)->Some_0->Str_0
}

/// An optional string field: absent, null, or a string.
pub open spec fn opt_str_ok(j: JsonV, key: Seq<char>) -> bool {
    match jlookup(j, key) {
        None => true,
        Some(v) => v is Str || v is Null,
    }
}

/// The value of an optional string field; absent and null read as `None`.
pub open spec fn opt_str_of(j: JsonV, key: Seq<char>) -> Option<Seq<char>> {
    match jlookup(j, key) {
        Some(JsonV::Str(s)) => Some(s),
        _ => None,
    }
}

/// An in-memory optional string against its decoded wire value.
pub open spec fn opt_str_eq(x: Option<String>, v: Option<Seq<char>>) -> bool {
    match (x, v) {
        (Some(s), Some(t)) => s@ == t,
        (None, None) => true,
        _ => false,
    }
}

/// A required boolean field: present and a boolean.
pub open spec fn req_bool(j: JsonV, key: Seq<char>) -> bool {
    jlookup(j, key) matches Some(v) && v is Bool
}

pub open spec fn bool_of(j: JsonV, key: Seq<char>) -> bool {
    jlookup(j, key)->Some_0->Bool_0
}

/// A required unsigned number field: present and a number.
pub open spec fn req_num(j: JsonV, key: Seq<char>) -> bool {
    jlookup(j, key) matches Some(v) && v is Num
}

pub open spec fn num_of(j: JsonV, key: Seq<char>) -> nat {
    jlookup(j, key)->Some_0->Num_0
}

/// The keys of object entries in first-occurrence order.
pub open spec fn first_keys(es: Seq<(Seq<char>, JsonV)>) -> Seq<Seq<char>>
    decreases es.len(),
{
    if es.len() == 0 {
        Seq::empty()
    } else {
        let r = first_keys(es.drop_last());
        if r.contains(es.last().0) {
            r
        } else {
            r.push(es.last().0)
        }
    }
}

/// Every value of these object entries is a string.
pub open spec fn all_str_values(es: Seq<(Seq<char>, JsonV)>) -> bool {
    forall|i: int| 0 <= i < es.len() ==> (#[trigger] es[i].1) is Str
}

/// The string-to-string mapping carried by object entries, later entries
/// winning.
pub open spec fn str_obj_map(es: Seq<(Seq<char>, JsonV)>) -> Map<Seq<char>, Seq<char>>
    decreases es.len(),
{
    if es.len() == 0 {
        Map::empty()
    } else {
        str_obj_map(es.drop_last()).insert(es.last().0, es.last().1->Str_0)
    }
}

/// The closed set of locales the skill distinguishes; every unsupported
/// tag degrades to `Unknown`.
#[derive(Debug, Clone, Copy, PartialEq, Eq, Structural)]
pub enum Locale {
    Italian,
    German,
    AustralianEnglish,
    CanadianEnglish,
    BritishEnglish,
    IndianEnglish,
    AmericanEnglish,
    Japanese,
    Unknown,
}

/// The table-driven classification of a raw locale tag.
pub open spec fn spec_classify_locale(s: Seq<char>) -> Locale {
    if s == "it-IT"@ {
        Locale::Italian
    } else if s == "de-DE"@ {
        Locale::German
    } else if s == "en-AU"@ {
        Locale::AustralianEnglish
    } else if s == "en-CA"@ {
        Locale::CanadianEnglish
    } else if s == "en-GB"@ {
        Locale::BritishEnglish
    } else if s == "en-IN"@ {
        Locale::IndianEnglish
    } else if s == "en-US"@ {
        Locale::AmericanEnglish
    } else if s == "ja-JP"@ {
        Locale::Japanese
    } else {
        Locale::Unknown
    }
}

impl Locale {
    /// Exact-match classification of a standard locale tag; never fails,
    /// every tag outside the fixed table maps to `Unknown`.
    pub fn classify(s: &str) -> (r: Locale)
        ensures
            r == spec_classify_locale(s@),
    {
        if crate::str_eq(s, "it-IT") {
            Locale::Italian
        } else if crate::str_eq(s, "de-DE") {
            Locale::German
        } else if crate::str_eq(s, "en-AU") {
            Locale::AustralianEnglish
        } else if crate::str_eq(s, "en-CA") {
            Locale::CanadianEnglish
        } else if crate::str_eq(s, "en-GB") {
            Locale::BritishEnglish
        } else if crate::str_eq(s, "en-IN") {
            Locale::IndianEnglish
        } else if crate::str_eq(s, "en-US") {
            Locale::AmericanEnglish
        } else if crate::str_eq(s, "ja-JP") {
            Locale::Japanese
        } else {
            Locale::Unknown
        }
    }

    /// The five English variants, and nothing else.
    pub open spec fn spec_is_english(self) -> bool {
        self == Locale::AmericanEnglish || self == Locale::AustralianEnglish || self
            == Locale::CanadianEnglish || self == Locale::BritishEnglish || self
            == Locale::IndianEnglish
    }

    pub fn is_english(&self) -> (r: bool)
        ensures
            r == self.spec_is_english(),
    {
        match *self {
            Locale::AmericanEnglish => true,
            Locale::AustralianEnglish => true,
            Locale::CanadianEnglish => true,
            Locale::BritishEnglish => true,
            Locale::IndianEnglish => true,
            _ => false,
        }
    }
}

/// The closed set of built-in intents, the absence of an intent, and a
/// carrier for any other intent name, kept verbatim.
#[derive(Debug, Clone, PartialEq)]
pub enum IntentType {
    Absent,
    Help,
    Cancel,
    Fallback,
    LoopOff,
    LoopOn,
    Next,
    No,
    Pause,
    Previous,
    Repeat,
    Resume,
    Select,
    ShuffleOn,
    ShuffleOff,
    StartOver,
    Stop,
    Yes,
    User(String),
}

/// The table-driven classification of a present intent name: an exact
/// string match against the built-in table, with no normalization; any
/// other name falls to `User` carrying the name unchanged.
pub open spec fn spec_classify_intent(name: String) -> IntentType {
    if name@ == "AMAZON.HelpIntent"@ {
        IntentType::Help
    } else if name@ == "AMAZON.CancelIntent"@ {
        IntentType::Cancel
    } else if name@ == "AMAZON.FallbackIntent"@ {
        IntentType::Fallback
    } else if name@ == "AMAZON.LoopOffIntent"@ {
        IntentType::LoopOff
    } else if name@ == "AMAZON.LoopOnIntent"@ {
        IntentType::LoopOn
    } else if name@ == "AMAZON.NextIntent"@ {
        IntentType::Next
    } else if name@ == "AMAZON.NoIntent"@ {
        IntentType::No
    } else if name@ == "AMAZON.PauseIntent"@ {
        IntentType::Pause
    } else if name@ == "AMAZON.PreviousIntent"@ {
        IntentType::Previous
    } else if name@ == "AMAZON.RepeatIntent"@ {
        IntentType::Repeat
    } else if name@ == "AMAZON.ResumeIntent"@ {
        IntentType::Resume
    } else if name@ == "AMAZON.SelectIntent"@ {
        IntentType::Select
    } else if name@ == "AMAZON.ShuffleOffIntent"@ {
        IntentType::ShuffleOff
    } else if name@ == "AMAZON.ShuffleOnIntent"@ {
        IntentType::ShuffleOn
    } else if name@ == "AMAZON.StartOverIntent"@ {
        IntentType::StartOver
    } else if name@ == "AMAZON.StopIntent"@ {
        IntentType::Stop
    } else if name@ == "AMAZON.YesIntent"@ {
        IntentType::Yes
    } else {
        IntentType::User(name)
    }
}

fn classify_intent_name(name: &String) -> (r: IntentType)
    ensures
        r == spec_classify_intent(*name),
{
    if crate::str_eq(name.as_str(), "AMAZON.HelpIntent") {
        IntentType::Help
    } else if crate::str_eq(name.as_str(), "AMAZON.CancelIntent") {
        IntentType::Cancel
    } else if crate::str_eq(name.as_str(), "AMAZON.FallbackIntent") {
        IntentType::Fallback
    } else if crate::str_eq(name.as_str(), "AMAZON.LoopOffIntent") {
        IntentType::LoopOff
    } else if crate::str_eq(name.as_str(), "AMAZON.LoopOnIntent") {
        IntentType::LoopOn
    } else if crate::str_eq(name.as_str(), "AMAZON.NextIntent") {
        IntentType::Next
    } else if crate::str_eq(name.as_str(), "AMAZON.NoIntent") {
        IntentType::No
    } else if crate::str_eq(name.as_str(), "AMAZON.PauseIntent") {
        IntentType::Pause
    } else if crate::str_eq(name.as_str(), "AMAZON.PreviousIntent") {
        IntentType::Previous
    } else if crate::str_eq(name.as_str(), "AMAZON.RepeatIntent") {
        IntentType::Repeat
    } else if crate::str_eq(name.as_str(), "AMAZON.ResumeIntent") {
        IntentType::Resume
    } else if crate::str_eq(name.as_str(), "AMAZON.SelectIntent") {
        IntentType::Select
    } else if crate::str_eq(name.as_str(), "AMAZON.ShuffleOffIntent") {
        IntentType::ShuffleOff
    } else if crate::str_eq(name.as_str(), "AMAZON.ShuffleOnIntent") {
        IntentType::ShuffleOn
    } else if crate::str_eq(name.as_str(), "AMAZON.StartOverIntent") {
        IntentType::StartOver
    } else if crate::str_eq(name.as_str(), "AMAZON.StopIntent") {
        IntentType::Stop
    } else if crate::str_eq(name.as_str(), "AMAZON.YesIntent") {
        IntentType::Yes
    } else {
        IntentType::User(name.clone())
    }
}


/// One resolved value of a slot resolution.
#[derive(Debug, Clone)]
pub struct ResolutionValue {
    pub name: String,
    pub id: String,
}

pub struct ResolutionValueV {
    pub name: Seq<char>,
    pub id: Seq<char>,
}

impl View for ResolutionValue {
    type V = ResolutionValueV;

    open spec fn view(&self) -> ResolutionValueV {
        ResolutionValueV { name: self.name@, id: self.id@ }
    }
}

/// The status of a resolution authority's answer.
#[derive(Debug, Clone)]
pub struct Status {
    pub code: String,
}

pub struct StatusV {
    pub code: Seq<char>,
}

impl View for Status {
    type V = StatusV;

    open spec fn view(&self) -> StatusV {
        StatusV { code: self.code@ }
    }
}

/// One authority's resolution of a slot value.
#[derive(Debug, Clone)]
pub struct ResolutionsPerAuthority {
    pub authority: String,
    pub status: Status,
    pub values: Vec<ResolutionValue>,
}

pub struct ResolutionsPerAuthorityV {
    pub authority: Seq<char>,
    pub status: StatusV,
    pub values: Seq<ResolutionValueV>,
}

impl View for ResolutionsPerAuthority {
    type V = ResolutionsPerAuthorityV;

    open spec fn view(&self) -> ResolutionsPerAuthorityV {
        ResolutionsPerAuthorityV {
            authority: self.authority@,
            status: self.status@,
            values: self.values@.map_values(|v: ResolutionValue| v@),
        }
    }
}

/// The ordered resolutions of a slot.
#[derive(Debug, Clone)]
pub struct Resolution {
    pub resolutions_per_authority: Vec<ResolutionsPerAuthority>,
}

pub struct ResolutionV {
    pub resolutions_per_authority: Seq<ResolutionsPerAuthorityV>,
}

impl View for Resolution {
    type V = ResolutionV;

    open spec fn view(&self) -> ResolutionV {
        ResolutionV {
            resolutions_per_authority: self.resolutions_per_authority@.map_values(
                |r: ResolutionsPerAuthority| r@,
            ),
        }
    }
}

/// A named, optionally-resolved parameter captured within an intent.
#[derive(Debug, Clone)]
pub struct Slot {
    pub name: String,
    pub value: String,
    pub confirmation_status: String,
    pub resolutions: Option<Resolution>,
}

pub struct SlotV {
    pub name: Seq<char>,
    pub value: Seq<char>,
    pub confirmation_status: Seq<char>,
    pub resolutions: Option<ResolutionV>,
}

impl View for Slot {
    type V = SlotV;

    open spec fn view(&self) -> SlotV {
        SlotV {
            name: self.name@,
            value: self.value@,
            confirmation_status: self.confirmation_status@,
            resolutions: match self.resolutions {
                Some(r) => Some(r@),
                None => None,
            },
        }
    }
}

impl ResolutionValue {
    pub open spec fn can_decode(j: JsonV) -> bool {
        req_str(j, "name"@) && req_str(j, "id"@)
    }

    pub open spec fn of_json(j: JsonV) -> ResolutionValueV {
        ResolutionValueV { name: str_of(j, "name"@), id: str_of(j, "id"@) }
    }

    /// Decodes one resolved value; both fields are required.
    pub fn from_json(j: &Json) -> (r: Result<ResolutionValue, DecodeError>)
        ensures
            match r {
                Ok(x) => Self::can_decode(j@) && x@ == Self::of_json(j@),
                Err(e) => !Self::can_decode(j@) && e == DecodeError::Invalid,
            },
    {
        let name = match j.get("name") {
            Some(Json::Str(s)) => s.clone(),
            _ => { return Err(DecodeError::Invalid) },
        };
        let id = match j.get("id") {
            Some(Json::Str(s)) => s.clone(),
            _ => { return Err(DecodeError::Invalid) },
        };
        Ok(ResolutionValue { name, id })
    }
}

impl Status {
    pub open spec fn can_decode(j: JsonV) -> bool {
        req_str(j, "code"@)
    }

    pub open spec fn of_json(j: JsonV) -> StatusV {
        StatusV { code: str_of(j, "code"@) }
    }

    /// Decodes a resolution status; the code is required.
    pub fn from_json(j: &Json) -> (r: Result<Status, DecodeError>)
        ensures
            match r {
                Ok(x) => Self::can_decode(j@) && x@ == Self::of_json(j@),
                Err(e) => !Self::can_decode(j@) && e == DecodeError::Invalid,
            },
    {
        let code = match j.get("code") {
            Some(Json::Str(s)) => s.clone(),
            _ => { return Err(DecodeError::Invalid) },
        };
        Ok(Status { code })
    }
}

/// Every item decodes as a resolved value.
pub open spec fn can_value_items(s: Seq<JsonV>) -> bool {
    forall|i: int| 0 <= i < s.len() ==> ResolutionValue::can_decode(#[trigger] s[i])
}

pub open spec fn value_items_of(s: Seq<JsonV>) -> Seq<ResolutionValueV> {
    s.map_values(|v: JsonV| ResolutionValue::of_json(v))
}

fn values_from_json(xs: &Vec<Json>) -> (r: Result<Vec<ResolutionValue>, DecodeError>)
    ensures
        match r {
            Ok(v) => can_value_items(items_view(xs@)) && v@.map_values(|x: ResolutionValue| x@)
                == value_items_of(items_view(xs@)),
            Err(e) => !can_value_items(items_view(xs@)) && e == DecodeError::Invalid,
        },
{
    let mut out: Vec<ResolutionValue> = Vec::new();
    let n = xs.len();
    for i in 0..n
        invariant
            n == xs@.len(),
            out@.len() == i,
            forall|k: int| 0 <= k < i ==> ResolutionValue::can_decode(#[trigger] items_view(xs@)[k]),
            forall|k: int| 0 <= k < i ==> (#[trigger] out@[k])@ == ResolutionValue::of_json(
                items_view(xs@)[k],
            ),
    {
        proof {
            crate::json::lemma_items_view(xs@);
        }
        match ResolutionValue::from_json(&xs[i]) {
            Ok(v) => out.push(v),
            Err(e) => {
                proof {
                    crate::json::lemma_items_view(xs@);
                    assert(!ResolutionValue::can_decode(items_view(xs@)[i as int]));
                }
                return Err(e);
            },
        }
    }
    proof {
        crate::json::lemma_items_view(xs@);
        assert(out@.map_values(|x: ResolutionValue| x@) =~= value_items_of(items_view(xs@)));
    }
    Ok(out)
}

impl ResolutionsPerAuthority {
    pub open spec fn can_decode(j: JsonV) -> bool {
        &&& req_str(j, "authority"@)
        &&& jlookup(j, "status"@) matches Some(s) && Status::can_decode(s)
        &&& jlookup(j, "values"@) matches Some(v) && v matches JsonV::Arr(items)
            && can_value_items(items)
    }

    pub open spec fn of_json(j: JsonV) -> ResolutionsPerAuthorityV {
        ResolutionsPerAuthorityV {
            authority: str_of(j, "authority"@),
            status: Status::of_json(jlookup(j, "status"@)->Some_0),
            values: value_items_of(jlookup(j, "values"@)->Some_0->Arr_0),
        }
    }

    /// Decodes one authority's resolution; every field is required.
    pub fn from_json(j: &Json) -> (r: Result<ResolutionsPerAuthority, DecodeError>)
        ensures
            match r {
                Ok(x) => Self::can_decode(j@) && x@ == Self::of_json(j@),
                Err(e) => !Self::can_decode(j@) && e == DecodeError::Invalid,
            },
    {
        let authority = match j.get("authority") {
            Some(Json::Str(s)) => s.clone(),
            _ => { return Err(DecodeError::Invalid) },
        };
        let status = match j.get("status") {
            Some(v) => match Status::from_json(v) {
                Ok(s) => s,
                Err(e) => { return Err(e) },
            },
            None => { return Err(DecodeError::Invalid) },
        };
        let values = match j.get("values") {
            Some(Json::Arr(items)) => match values_from_json(items) {
                Ok(v) => v,
                Err(e) => { return Err(e) },
            },
            _ => { return Err(DecodeError::Invalid) },
        };
        Ok(ResolutionsPerAuthority { authority, status, values })
    }
}

/// Every item decodes as one authority's resolution.
pub open spec fn can_rpa_items(s: Seq<JsonV>) -> bool {
    forall|i: int| 0 <= i < s.len() ==> ResolutionsPerAuthority::can_decode(#[trigger] s[i])
}

pub open spec fn rpa_items_of(s: Seq<JsonV>) -> Seq<ResolutionsPerAuthorityV> {
    s.map_values(|v: JsonV| ResolutionsPerAuthority::of_json(v))
}

fn rpas_from_json(xs: &Vec<Json>) -> (r: Result<Vec<ResolutionsPerAuthority>, DecodeError>)
    ensures
        match r {
            Ok(v) => can_rpa_items(items_view(xs@)) && v@.map_values(
                |x: ResolutionsPerAuthority| x@,
            ) == rpa_items_of(items_view(xs@)),
            Err(e) => !can_rpa_items(items_view(xs@)) && e == DecodeError::Invalid,
        },
{
    let mut out: Vec<ResolutionsPerAuthority> = Vec::new();
    let n = xs.len();
    for i in 0..n
        invariant
            n == xs@.len(),
            out@.len() == i,
            forall|k: int| 0 <= k < i ==> ResolutionsPerAuthority::can_decode(
                #[trigger] items_view(xs@)[k],
            ),
            forall|k: int| 0 <= k < i ==> (#[trigger] out@[k])@ == ResolutionsPerAuthority::of_json(
                items_view(xs@)[k],
            ),
    {
        proof {
            crate::json::lemma_items_view(xs@);
        }
        match ResolutionsPerAuthority::from_json(&xs[i]) {
            Ok(v) => out.push(v),
            Err(e) => {
                proof {
                    crate::json::lemma_items_view(xs@);
                    assert(!ResolutionsPerAuthority::can_decode(items_view(xs@)[i as int]));
                }
                return Err(e);
            },
        }
    }
    proof {
        crate::json::lemma_items_view(xs@);
        assert(out@.map_values(|x: ResolutionsPerAuthority| x@) =~= rpa_items_of(items_view(xs@)));
    }
    Ok(out)
}

impl Resolution {
    pub open spec fn can_decode(j: JsonV) -> bool {
        jlookup(j, "resolutionsPerAuthority"@) matches Some(v) && v matches JsonV::Arr(items)
            && can_rpa_items(items)
    }

    pub open spec fn of_json(j: JsonV) -> ResolutionV {
        ResolutionV {
            resolutions_per_authority: rpa_items_of(
                jlookup(j, "resolutionsPerAuthority"@)->Some_0->Arr_0,
            ),
        }
    }

    /// Decodes a slot resolution; the authority sequence is required.
    pub fn from_json(j: &Json) -> (r: Result<Resolution, DecodeError>)
        ensures
            match r {
                Ok(x) => Self::can_decode(j@) && x@ == Self::of_json(j@),
                Err(e) => !Self::can_decode(j@) && e == DecodeError::Invalid,
            },
    {
        let rpas = match j.get("resolutionsPerAuthority") {
            Some(Json::Arr(items)) => match rpas_from_json(items) {
                Ok(v) => v,
                Err(e) => { return Err(e) },
            },
            _ => { return Err(DecodeError::Invalid) },
        };
        Ok(Resolution { resolutions_per_authority: rpas })
    }
}

impl Slot {
    pub open spec fn can_decode(j: JsonV) -> bool {
        &&& req_str(j, "name"@)
        &&& req_str(j, "value"@)
        &&& req_str(j, "confirmationStatus"@)
        &&& match jlookup(j, "resolutions"@) {
            None => true,
            Some(JsonV::Null) => true,
            Some(v) => Resolution::can_decode(v),
        }
    }

    pub open spec fn of_json(j: JsonV) -> SlotV {
        SlotV {
            name: str_of(j, "name"@),
            value: str_of(j, "value"@),
            confirmation_status: str_of(j, "confirmationStatus"@),
            resolutions: match jlookup(j, "resolutions"@) {
                None => None,
                Some(JsonV::Null) => None,
                Some(v) => Some(Resolution::of_json(v)),
            },
        }
    }

    /// Decodes a slot: name, value and confirmation status are required,
    /// the resolutions are optional.
    pub fn from_json(j: &Json) -> (r: Result<Slot, DecodeError>)
        ensures
            match r {
                Ok(x) => Self::can_decode(j@) && x@ == Self::of_json(j@),
                Err(e) => !Self::can_decode(j@) && e == DecodeError::Invalid,
            },
    {
        let name = match j.get("name") {
            Some(Json::Str(s)) => s.clone(),
            _ => { return Err(DecodeError::Invalid) },
        };
        let value = match j.get("value") {
            Some(Json::Str(s)) => s.clone(),
            _ => { return Err(DecodeError::Invalid) },
        };
        let confirmation_status = match j.get("confirmationStatus") {
            Some(Json::Str(s)) => s.clone(),
            _ => { return Err(DecodeError::Invalid) },
        };
        let resolutions = match j.get("resolutions") {
            None => None,
            Some(Json::Null) => None,
            Some(v) => match Resolution::from_json(v) {
                Ok(x) => Some(x),
                Err(e) => { return Err(e) },
            },
        };
        Ok(Slot { name, value, confirmation_status, resolutions })
    }
}


/// The string-to-string attribute mapping carried by object entries.
pub(crate) fn str_map_from_entries(es: &Vec<(String, Json)>) -> (r: Result<KvMap<String>, DecodeError>)
    ensures
        match r {
            Ok(m) => all_str_values(entries_view(es@)) && m.wf() && m@ == str_obj_map(
                entries_view(es@),
            ) && m.spec_keys() == first_keys(entries_view(es@)),
            Err(e) => !all_str_values(entries_view(es@)) && e == DecodeError::Invalid,
        },
{
    let mut m = KvMap::<String>::new();
    let ghost ev = entries_view(es@);
    proof {
        assert(ev.take(0) =~= Seq::<(Seq<char>, JsonV)>::empty());
        crate::json::lemma_entries_view(es@);
    }
    let n = es.len();
    for i in 0..n
        invariant
            n == es@.len(),
            ev == entries_view(es@),
            ev.len() == n,
            m.wf(),
            m@ == str_obj_map(ev.take(i as int)),
            m.spec_keys() == first_keys(ev.take(i as int)),
            forall|k: int| 0 <= k < i ==> (#[trigger] ev[k].1) is Str,
    {
        proof {
            crate::json::lemma_entries_view(es@);
        }
        match &es[i].1 {
            Json::Str(v) => {
                let ghost m0 = m;
                let key = es[i].0.clone();
                let val = v.clone();
                m.insert(key, val);
                proof {
                    m0.lemma_view_contains_key(ev[i as int].0);
                    assert(ev.take(i + 1).drop_last() =~= ev.take(i as int));
                    assert(ev.take(i + 1).last() == ev[i as int]);
                    assert(m@ =~= str_obj_map(ev.take(i + 1)));
                    assert(m.spec_keys() == first_keys(ev.take(i + 1)));
                }
            },
            _ => {
                proof {
                    assert(!(ev[i as int].1 is Str));
                }
                return Err(DecodeError::Invalid);
            },
        }
    }
    proof {
        assert(ev.take(n as int) =~= ev);
    }
    Ok(m)
}

/// Every value of these object entries decodes as a slot.
pub open spec fn can_slot_entries(es: Seq<(Seq<char>, JsonV)>) -> bool {
    forall|i: int| 0 <= i < es.len() ==> Slot::can_decode((#[trigger] es[i]).1)
}

/// The slot mapping carried by object entries, later entries winning.
pub open spec fn slot_obj_map(es: Seq<(Seq<char>, JsonV)>) -> Map<Seq<char>, SlotV>
    decreases es.len(),
{
    if es.len() == 0 {
        Map::empty()
    } else {
        slot_obj_map(es.drop_last()).insert(es.last().0, Slot::of_json(es.last().1))
    }
}

fn slot_map_from_entries(es: &Vec<(String, Json)>) -> (r: Result<KvMap<Slot>, DecodeError>)
    ensures
        match r {
            Ok(m) => can_slot_entries(entries_view(es@)) && m.wf() && m@ == slot_obj_map(
                entries_view(es@),
            ) && m.spec_keys() == first_keys(entries_view(es@)),
            Err(e) => !can_slot_entries(entries_view(es@)) && e == DecodeError::Invalid,
        },
{
    let mut m = KvMap::<Slot>::new();
    let ghost ev = entries_view(es@);
    proof {
        assert(ev.take(0) =~= Seq::<(Seq<char>, JsonV)>::empty());
        crate::json::lemma_entries_view(es@);
    }
    let n = es.len();
    for i in 0..n
        invariant
            n == es@.len(),
            ev == entries_view(es@),
            ev.len() == n,
            m.wf(),
            m@ == slot_obj_map(ev.take(i as int)),
            m.spec_keys() == first_keys(ev.take(i as int)),
            forall|k: int| 0 <= k < i ==> Slot::can_decode((#[trigger] ev[k]).1),
    {
        proof {
            crate::json::lemma_entries_view(es@);
        }
        match Slot::from_json(&es[i].1) {
            Ok(slot) => {
                let ghost m0 = m;
                let key = es[i].0.clone();
                m.insert(key, slot);
                proof {
                    m0.lemma_view_contains_key(ev[i as int].0);
                    assert(ev.take(i + 1).drop_last() =~= ev.take(i as int));
                    assert(ev.take(i + 1).last() == ev[i as int]);
                    assert(m@ =~= slot_obj_map(ev.take(i + 1)));
                    assert(m.spec_keys() == first_keys(ev.take(i + 1)));
                }
            },
            Err(e) => {
                proof {
                    assert(!Slot::can_decode(ev[i as int].1));
                }
                return Err(e);
            },
        }
    }
    proof {
        assert(ev.take(n as int) =~= ev);
    }
    Ok(m)
}

/// A user intent: its name, confirmation status, and slots.
#[derive(Debug, Clone)]
pub struct Intent {
    pub name: String,
    pub confirmation_status: String,
    pub slots: Option<KvMap<Slot>>,
}

impl Intent {
    pub open spec fn can_decode(j: JsonV) -> bool {
        &&& req_str(j, "name"@)
        &&& req_str(j, "confirmationStatus"@)
        &&& match jlookup(j, "slots"@) {
            None => true,
            Some(JsonV::Null) => true,
            Some(JsonV::Obj(es)) => can_slot_entries(es),
            Some(_) => false,
        }
    }

    pub open spec fn decoded(j: JsonV, x: Intent) -> bool {
        &&& x.name@ == str_of(j, "name"@)
        &&& x.confirmation_status@ == str_of(j, "confirmationStatus"@)
        &&& match jlookup(j, "slots"@) {
            None => x.slots is None,
            Some(JsonV::Null) => x.slots is None,
            Some(JsonV::Obj(es)) => x.slots matches Some(m) && m.wf() && m@ == slot_obj_map(es)
                && m.spec_keys() == first_keys(es),
            Some(_) => false,
        }
    }

    /// Decodes an intent: name and confirmation status are required, the
    /// slot mapping is optional.
    pub fn from_json(j: &Json) -> (r: Result<Intent, DecodeError>)
        ensures
            match r {
                Ok(x) => Self::can_decode(j@) && Self::decoded(j@, x),
                Err(e) => !Self::can_decode(j@) && e == DecodeError::Invalid,
            },
    {
        let name = match j.get("name") {
            Some(Json::Str(s)) => s.clone(),
            _ => { return Err(DecodeError::Invalid) },
        };
        let confirmation_status = match j.get("confirmationStatus") {
            Some(Json::Str(s)) => s.clone(),
            _ => { return Err(DecodeError::Invalid) },
        };
        let slots = match j.get("slots") {
            None => None,
            Some(Json::Null) => None,
            Some(Json::Obj(es)) => match slot_map_from_entries(es) {
                Ok(m) => Some(m),
                Err(e) => { return Err(e) },
            },
            Some(_) => { return Err(DecodeError::Invalid) },
        };
        Ok(Intent { name, confirmation_status, slots })
    }
}

/// The calling skill.
#[derive(Debug, Clone)]
pub struct Application {
    pub application_id: String,
}

impl Application {
    pub open spec fn can_decode(j: JsonV) -> bool {
        req_str(j, "applicationId"@)
    }

    pub open spec fn decoded(j: JsonV, x: Application) -> bool {
        x.application_id@ == str_of(j, "applicationId"@)
    }

    /// Decodes the application; its identifier is required.
    pub fn from_json(j: &Json) -> (r: Result<Application, DecodeError>)
        ensures
            match r {
                Ok(x) => Self::can_decode(j@) && Self::decoded(j@, x),
                Err(e) => !Self::can_decode(j@) && e == DecodeError::Invalid,
            },
    {
        let application_id = match j.get("applicationId") {
            Some(Json::Str(s)) => s.clone(),
            _ => { return Err(DecodeError::Invalid) },
        };
        Ok(Application { application_id })
    }
}

/// The interacting user.
#[derive(Debug, Clone)]
pub struct User {
    pub user_id: String,
    pub access_token: Option<String>,
}

impl User {
    pub open spec fn can_decode(j: JsonV) -> bool {
        req_str(j, "userId"@) && opt_str_ok(j, "accessToken"@)
    }

    pub open spec fn decoded(j: JsonV, x: User) -> bool {
        x.user_id@ == str_of(j, "userId"@) && opt_str_eq(x.access_token, opt_str_of(j, "accessToken"@))
    }

    /// Decodes the user; the identifier is required, the token optional.
    pub fn from_json(j: &Json) -> (r: Result<User, DecodeError>)
        ensures
            match r {
                Ok(x) => Self::can_decode(j@) && Self::decoded(j@, x),
                Err(e) => !Self::can_decode(j@) && e == DecodeError::Invalid,
            },
    {
        let user_id = match j.get("userId") {
            Some(Json::Str(s)) => s.clone(),
            _ => { return Err(DecodeError::Invalid) },
        };
        let access_token = match j.get("accessToken") {
            None => None,
            Some(Json::Null) => None,
            Some(Json::Str(s)) => Some(s.clone()),
            Some(_) => { return Err(DecodeError::Invalid) },
        };
        Ok(User { user_id, access_token })
    }
}

/// The device the request came from.
#[derive(Debug, Clone)]
pub struct Device {
    pub device_id: String,
}

impl Device {
    pub open spec fn can_decode(j: JsonV) -> bool {
        req_str(j, "deviceId"@)
    }

    pub open spec fn decoded(j: JsonV, x: Device) -> bool {
        x.device_id@ == str_of(j, "deviceId"@)
    }

    /// Decodes the device; its identifier is required.
    pub fn from_json(j: &Json) -> (r: Result<Device, DecodeError>)
        ensures
            match r {
                Ok(x) => Self::can_decode(j@) && Self::decoded(j@, x),
                Err(e) => !Self::can_decode(j@) && e == DecodeError::Invalid,
            },
    {
        let device_id = match j.get("deviceId") {
            Some(Json::Str(s)) => s.clone(),
            _ => { return Err(DecodeError::Invalid) },
        };
        Ok(Device { device_id })
    }
}

/// A session-based interaction: its identity, pass-through attributes,
/// application and user.
#[derive(Debug, Clone)]
pub struct Session {
    pub new: bool,
    pub session_id: String,
    pub attributes: Option<KvMap<String>>,
    pub application: Application,
    pub user: User,
}

impl Session {
    pub open spec fn can_decode(j: JsonV) -> bool {
        &&& req_bool(j, "new"@)
        &&& req_str(j, "sessionId"@)
        &&& match jlookup(j, "attributes"@) {
            None => true,
            Some(JsonV::Null) => true,
            Some(JsonV::Obj(es)) => all_str_values(es),
            Some(_) => false,
        }
        &&& jlookup(j, "application"@) matches Some(a) && Application::can_decode(a)
        &&& jlookup(j, "user"@) matches Some(u) && User::can_decode(u)
    }

    pub open spec fn decoded(j: JsonV, x: Session) -> bool {
        &&& x.new == bool_of(j, "new"@)
        &&& x.session_id@ == str_of(j, "sessionId"@)
        &&& match jlookup(j, "attributes"@) {
            None => x.attributes is None,
            Some(JsonV::Null) => x.attributes is None,
            Some(JsonV::Obj(es)) => x.attributes matches Some(m) && m.wf() && m@ == str_obj_map(es)
                && m.spec_keys() == first_keys(es),
            Some(_) => false,
        }
        &&& Application::decoded(jlookup(j, "application"@)->Some_0, x.application)
        &&& User::decoded(jlookup(j, "user"@)->Some_0, x.user)
    }

    /// Decodes a session: identity, application and user are required, the
    /// attribute mapping is optional.
    pub fn from_json(j: &Json) -> (r: Result<Session, DecodeError>)
        ensures
            match r {
                Ok(x) => Self::can_decode(j@) && Self::decoded(j@, x),
                Err(e) => !Self::can_decode(j@) && e == DecodeError::Invalid,
            },
    {
        let new = match j.get("new") {
            Some(Json::Bool(b)) => *b,
            _ => { return Err(DecodeError::Invalid) },
        };
        let session_id = match j.get("sessionId") {
            Some(Json::Str(s)) => s.clone(),
            _ => { return Err(DecodeError::Invalid) },
        };
        let attributes = match j.get("attributes") {
            None => None,
            Some(Json::Null) => None,
            Some(Json::Obj(es)) => match str_map_from_entries(es) {
                Ok(m) => Some(m),
                Err(e) => { return Err(e) },
            },
            Some(_) => { return Err(DecodeError::Invalid) },
        };
        let application = match j.get("application") {
            Some(v) => match Application::from_json(v) {
                Ok(a) => a,
                Err(e) => { return Err(e) },
            },
            None => { return Err(DecodeError::Invalid) },
        };
        let user = match j.get("user") {
            Some(v) => match User::from_json(v) {
                Ok(u) => u,
                Err(e) => { return Err(e) },
            },
            None => { return Err(DecodeError::Invalid) },
        };
        Ok(Session { new, session_id, attributes, application, user })
    }
}

/// The audio player state of the device.
#[derive(Debug, Clone)]
pub struct AudioPlayer {
    pub token: String,
    pub offset_in_milliseconds: u64,
    pub player_activity: String,
}

impl AudioPlayer {
    pub open spec fn can_decode(j: JsonV) -> bool {
        &&& req_str(j, "token"@)
        &&& req_num(j, "offsetInMilliseconds"@)
        &&& req_str(j, "playerActivity"@)
    }

    pub open spec fn decoded(j: JsonV, x: AudioPlayer) -> bool {
        &&& x.token@ == str_of(j, "token"@)
        &&& x.offset_in_milliseconds as nat == num_of(j, "offsetInMilliseconds"@)
        &&& x.player_activity@ == str_of(j, "playerActivity"@)
    }

    /// Decodes the audio player state; every field is required.
    pub fn from_json(j: &Json) -> (r: Result<AudioPlayer, DecodeError>)
        ensures
            match r {
                Ok(x) => Self::can_decode(j@) && Self::decoded(j@, x),
                Err(e) => !Self::can_decode(j@) && e == DecodeError::Invalid,
            },
    {
        let token = match j.get("token") {
            Some(Json::Str(s)) => s.clone(),
            _ => { return Err(DecodeError::Invalid) },
        };
        let offset_in_milliseconds = match j.get("offsetInMilliseconds") {
            Some(Json::Num(n)) => *n,
            _ => { return Err(DecodeError::Invalid) },
        };
        let player_activity = match j.get("playerActivity") {
            Some(Json::Str(s)) => s.clone(),
            _ => { return Err(DecodeError::Invalid) },
        };
        Ok(AudioPlayer { token, offset_in_milliseconds, player_activity })
    }
}

/// The platform context of the request.
#[derive(Debug, Clone)]
pub struct System {
    pub api_access_token: String,
    pub device: Option<Device>,
    pub application: Option<Application>,
}

impl System {
    pub open spec fn can_decode(j: JsonV) -> bool {
        &&& req_str(j, "apiAccessToken"@)
        &&& match jlookup(j, "device"@) {
            None => true,
            Some(JsonV::Null) => true,
            Some(v) => Device::can_decode(v),
        }
        &&& match jlookup(j, "application"@) {
            None => true,
            Some(JsonV::Null) => true,
            Some(v) => Application::can_decode(v),
        }
    }

    pub open spec fn decoded(j: JsonV, x: System) -> bool {
        &&& x.api_access_token@ == str_of(j, "apiAccessToken"@)
        &&& match jlookup(j, "device"@) {
            None => x.device is None,
            Some(JsonV::Null) => x.device is None,
            Some(v) => x.device matches Some(d) && Device::decoded(v, d),
        }
        &&& match jlookup(j, "application"@) {
            None => x.application is None,
            Some(JsonV::Null) => x.application is None,
            Some(v) => x.application matches Some(a) && Application::decoded(v, a),
        }
    }

    /// Decodes the system context; the token is required, device and
    /// application are optional.
    pub fn from_json(j: &Json) -> (r: Result<System, DecodeError>)
        ensures
            match r {
                Ok(x) => Self::can_decode(j@) && Self::decoded(j@, x),
                Err(e) => !Self::can_decode(j@) && e == DecodeError::Invalid,
            },
    {
        let api_access_token = match j.get("apiAccessToken") {
            Some(Json::Str(s)) => s.clone(),
            _ => { return Err(DecodeError::Invalid) },
        };
        let device = match j.get("device") {
            None => None,
            Some(Json::Null) => None,
            Some(v) => match Device::from_json(v) {
                Ok(d) => Some(d),
                Err(e) => { return Err(e) },
            },
        };
        let application = match j.get("application") {
            None => None,
            Some(Json::Null) => None,
            Some(v) => match Application::from_json(v) {
                Ok(a) => Some(a),
                Err(e) => { return Err(e) },
            },
        };
        Ok(System { api_access_token, device, application })
    }
}

/// The device and platform context of the request.
#[derive(Debug, Clone)]
pub struct Context {
    pub system: System,
    pub audio_player: Option<AudioPlayer>,
}

impl Context {
    pub open spec fn can_decode(j: JsonV) -> bool {
        &&& jlookup(j, "System"@) matches Some(s) && System::can_decode(s)
        &&& match jlookup(j, "AudioPlayer"@) {
            None => true,
            Some(JsonV::Null) => true,
            Some(v) => AudioPlayer::can_decode(v),
        }
    }

    pub open spec fn decoded(j: JsonV, x: Context) -> bool {
        &&& System::decoded(jlookup(j, "System"@)->Some_0, x.system)
        &&& match jlookup(j, "AudioPlayer"@) {
            None => x.audio_player is None,
            Some(JsonV::Null) => x.audio_player is None,
            Some(v) => x.audio_player matches Some(a) && AudioPlayer::decoded(v, a),
        }
    }

    /// Decodes the context; the system part is required under its wire
    /// capitalization, the audio player is optional.
    pub fn from_json(j: &Json) -> (r: Result<Context, DecodeError>)
        ensures
            match r {
                Ok(x) => Self::can_decode(j@) && Self::decoded(j@, x),
                Err(e) => !Self::can_decode(j@) && e == DecodeError::Invalid,
            },
    {
        let system = match j.get("System") {
            Some(v) => match System::from_json(v) {
                Ok(x) => x,
                Err(e) => { return Err(e) },
            },
            None => { return Err(DecodeError::Invalid) },
        };
        let audio_player = match j.get("AudioPlayer") {
            None => None,
            Some(Json::Null) => None,
            Some(v) => match AudioPlayer::from_json(v) {
                Ok(a) => Some(a),
                Err(e) => { return Err(e) },
            },
        };
        Ok(Context { system, audio_player })
    }
}

/// The body of the inbound envelope; its wire field name is `request`.
#[derive(Debug, Clone)]
pub struct ReqBody {
    pub reqtype: String,
    pub request_id: String,
    pub timestamp: String,
    pub locale: String,
    pub intent: Option<Intent>,
    pub reason: Option<String>,
    pub dialog_state: Option<String>,
}

impl ReqBody {
    pub open spec fn can_decode(j: JsonV) -> bool {
        &&& req_str(j, "type"@)
        &&& req_str(j, "requestId"@)
        &&& req_str(j, "timestamp"@)
        &&& req_str(j, "locale"@)
        &&& match jlookup(j, "intent"@) {
            None => true,
            Some(JsonV::Null) => true,
            Some(v) => Intent::can_decode(v),
        }
        &&& opt_str_ok(j, "reason"@)
        &&& opt_str_ok(j, "dialogState"@)
    }

    pub open spec fn decoded(j: JsonV, x: ReqBody) -> bool {
        &&& x.reqtype@ == str_of(j, "type"@)
        &&& x.request_id@ == str_of(j, "requestId"@)
        &&& x.timestamp@ == str_of(j, "timestamp"@)
        &&& x.locale@ == str_of(j, "locale"@)
        &&& match jlookup(j, "intent"@) {
            None => x.intent is None,
            Some(JsonV::Null) => x.intent is None,
            Some(v) => x.intent matches Some(i) && Intent::decoded(v, i),
        }
        &&& opt_str_eq(x.reason, opt_str_of(j, "reason"@))
        &&& opt_str_eq(x.dialog_state, opt_str_of(j, "dialogState"@))
    }

    /// Decodes the request body: type, identifier, timestamp and locale
    /// are required; intent, reason and dialog state are optional.
    pub fn from_json(j: &Json) -> (r: Result<ReqBody, DecodeError>)
        ensures
            match r {
                Ok(x) => Self::can_decode(j@) && Self::decoded(j@, x),
                Err(e) => !Self::can_decode(j@) && e == DecodeError::Invalid,
            },
    {
        let reqtype = match j.get("type") {
            Some(Json::Str(s)) => s.clone(),
            _ => { return Err(DecodeError::Invalid) },
        };
        let request_id = match j.get("requestId") {
            Some(Json::Str(s)) => s.clone(),
            _ => { return Err(DecodeError::Invalid) },
        };
        let timestamp = match j.get("timestamp") {
            Some(Json::Str(s)) => s.clone(),
            _ => { return Err(DecodeError::Invalid) },
        };
        let locale = match j.get("locale") {
            Some(Json::Str(s)) => s.clone(),
            _ => { return Err(DecodeError::Invalid) },
        };
        let intent = match j.get("intent") {
            None => None,
            Some(Json::Null) => None,
            Some(v) => match Intent::from_json(v) {
                Ok(i) => Some(i),
                Err(e) => { return Err(e) },
            },
        };
        let reason = match j.get("reason") {
            None => None,
            Some(Json::Null) => None,
            Some(Json::Str(s)) => Some(s.clone()),
            Some(_) => { return Err(DecodeError::Invalid) },
        };
        let dialog_state = match j.get("dialogState") {
            None => None,
            Some(Json::Null) => None,
            Some(Json::Str(s)) => Some(s.clone()),
            Some(_) => { return Err(DecodeError::Invalid) },
        };
        Ok(ReqBody { reqtype, request_id, timestamp, locale, intent, reason, dialog_state })
    }
}

/// The inbound envelope, immutable once decoded.
#[derive(Debug, Clone)]
pub struct Request {
    pub version: String,
    pub session: Option<Session>,
    pub body: ReqBody,
    pub context: Context,
}

impl Request {
    pub open spec fn can_decode(j: JsonV) -> bool {
        &&& req_str(j, "version"@)
        &&& match jlookup(j, "session"@) {
            None => true,
            Some(JsonV::Null) => true,
            Some(v) => Session::can_decode(v),
        }
        &&& jlookup(j, "request"@) matches Some(b) && ReqBody::can_decode(b)
        &&& jlookup(j, "context"@) matches Some(c) && Context::can_decode(c)
    }

    pub open spec fn decoded(j: JsonV, x: Request) -> bool {
        &&& x.version@ == str_of(j, "version"@)
        &&& match jlookup(j, "session"@) {
            None => x.session is None,
            Some(JsonV::Null) => x.session is None,
            Some(v) => x.session matches Some(s) && Session::decoded(v, s),
        }
        &&& ReqBody::decoded(jlookup(j, "request"@)->Some_0, x.body)
        &&& Context::decoded(jlookup(j, "context"@)->Some_0, x.context)
    }

    /// Decodes the whole envelope from its document tree: the decode
    /// succeeds exactly when every required field is present and well
    /// typed, and no partial value survives a failure. The in-memory body
    /// field reads from the wire field `request`.
    pub fn from_json(j: &Json) -> (r: Result<Request, DecodeError>)
        ensures
            match r {
                Ok(x) => Self::can_decode(j@) && Self::decoded(j@, x),
                Err(e) => !Self::can_decode(j@) && e == DecodeError::Invalid,
            },
    {
        let version = match j.get("version") {
            Some(Json::Str(s)) => s.clone(),
            _ => { return Err(DecodeError::Invalid) },
        };
        let session = match j.get("session") {
            None => None,
            Some(Json::Null) => None,
            Some(v) => match Session::from_json(v) {
                Ok(s) => Some(s),
                Err(e) => { return Err(e) },
            },
        };
        let body = match j.get("request") {
            Some(v) => match ReqBody::from_json(v) {
                Ok(b) => b,
                Err(e) => { return Err(e) },
            },
            None => { return Err(DecodeError::Invalid) },
        };
        let context = match j.get("context") {
            Some(v) => match Context::from_json(v) {
                Ok(c) => c,
                Err(e) => { return Err(e) },
            },
            None => { return Err(DecodeError::Invalid) },
        };
        Ok(Request { version, session, body, context })
    }

    /// The locale of the request, classified from its raw tag.
    pub fn locale(&self) -> (r: Locale)
        ensures
            r == spec_classify_locale(self.body.locale@),
    {
        Locale::classify(self.body.locale.as_str())
    }

    /// The intent of the request: `Absent` when none is present, the
    /// matching built-in for a name in the fixed table, and `User` with
    /// the verbatim name otherwise.
    pub fn intent(&self) -> (r: IntentType)
        ensures
            r == match self.body.intent {
                Some(i) => spec_classify_intent(i.name),
                None => IntentType::Absent,
            },
    {
        if let Some(i) = &self.body.intent {
            classify_intent_name(&i.name)
        } else {
            IntentType::Absent
        }
    }
}

} // verus!
