//! The wire protocol: a typed message envelope over the canonical JSON
//! codec.
//!
//! Every message is one JSON object: `message_id`, `timestamp`, the
//! `type` tag, and then the payload's own fields flattened at the same
//! level, in a fixed canonical order. Each payload type states its wire
//! shape as a spec function (`fieldsv`); encoding produces exactly that
//! shape and decoding accepts exactly it — fixed field order, no
//! whitespace — which is what makes the decode-of-encode round trip
//! provable. Two representations are deliberate models: timestamps and
//! deadlines travel as unix seconds rather than formatted date text,
//! and money as its canonical fixed-point text.

use vstd::prelude::*;
use crate::json::{
    fields_view, jsons_view, json_view, lemma_fields_view, lemma_jsons_view, str_eq, Json, JsonV,
};
use crate::money::{money_chars, parse_money, Money};

verus! {

broadcast use vstd::seq::group_seq_axioms, vstd::std_specs::vec::group_vec_axioms;

// ---------------------------------------------------------------------
// Helpers over the executable JSON value
// ---------------------------------------------------------------------

/// Views of fields concatenate over concatenation.
pub proof fn lemma_fields_view_concat(a: Seq<(String, Json)>, b: Seq<(String, Json)>)
    ensures
        fields_view(a + b) == fields_view(a) + fields_view(b),
    decreases a.len(),
{
    if a.len() == 0 {
        assert(a + b =~= b);
        assert(fields_view(a) + fields_view(b) =~= fields_view(b));
    } else {
        assert((a + b).drop_first() =~= a.drop_first() + b);
        lemma_fields_view_concat(a.drop_first(), b);
        assert((a + b)[0] == a[0]);
        assert(fields_view(a + b) =~= fields_view(a) + fields_view(b));
    }
}

/// Appending a field appends its view.
pub proof fn lemma_fields_view_push(s: Seq<(String, Json)>, x: (String, Json))
    ensures
        fields_view(s.push(x)) == fields_view(s).push((x.0@, json_view(x.1))),
{
    assert(s.push(x) =~= s + seq![x]);
    lemma_fields_view_concat(s, seq![x]);
    assert(seq![x].drop_first() =~= Seq::<(String, Json)>::empty());
    assert(fields_view(seq![x].drop_first()) == Seq::<(Seq<char>, JsonV)>::empty());
    assert(fields_view(seq![x]) == seq![(seq![x][0].0@, json_view(seq![x][0].1))] + fields_view(
        seq![x].drop_first(),
    ));
    assert(fields_view(seq![x]) =~= seq![(x.0@, json_view(x.1))]);
    assert(fields_view(s) + seq![(x.0@, json_view(x.1))] =~= fields_view(s).push(
        (x.0@, json_view(x.1)),
    ));
}

/// Appending an item appends its view.
pub proof fn lemma_jsons_view_push(s: Seq<Json>, x: Json)
    ensures
        jsons_view(s.push(x)) == jsons_view(s).push(json_view(x)),
    decreases s.len(),
{
    if s.len() == 0 {
        assert(s.push(x).drop_first() =~= Seq::<Json>::empty());
        assert(jsons_view(s.push(x).drop_first()) == Seq::<JsonV>::empty());
        assert(jsons_view(s.push(x)) == seq![json_view(s.push(x)[0])] + jsons_view(
            s.push(x).drop_first(),
        ));
        assert(jsons_view(s.push(x)) =~= seq![json_view(x)]);
        assert(jsons_view(s).push(json_view(x)) =~= seq![json_view(x)]);
    } else {
        assert(s.push(x).drop_first() =~= s.drop_first().push(x));
        lemma_jsons_view_push(s.drop_first(), x);
        assert(s.push(x)[0] == s[0]);
        assert(jsons_view(s.push(x)) =~= jsons_view(s).push(json_view(x)));
    }
}

/// Pushes one named field onto an object under construction.
pub fn push_field(fields: &mut Vec<(String, Json)>, key: &str, value: Json)
    ensures
        fields_view(final(fields)@) == fields_view(old(fields)@).push((key@, value@)),
{
    let owned = key.to_owned();
    proof {
        lemma_fields_view_push(fields@, (owned, value));
    }
    fields.push((owned, value));
}

/// Whether a field carries the given name.
pub fn key_is(f: &(String, Json), name: &str) -> (r: bool)
    ensures
        r == (f.0@ == name@),
{
    str_eq(f.0.as_str(), name)
}

/// The wire form of an optional string: `null` or the string.
pub open spec fn opt_str_jsonv(o: Option<Seq<char>>) -> JsonV {
    match o {
        Option::None => JsonV::Null,
        Option::Some(s) => JsonV::Str(s),
    }
}

/// The view of an optional string.
pub open spec fn opt_str_view(o: Option<String>) -> Option<Seq<char>> {
    match o {
        Option::None => Option::None,
        Option::Some(s) => Option::Some(s@),
    }
}

/// Builds the wire form of an optional string.
pub fn opt_str_to_json(o: &Option<String>) -> (j: Json)
    ensures
        j@ == opt_str_jsonv(opt_str_view(*o)),
{
    match o {
        Option::None => Json::Null,
        Option::Some(s) => Json::Str(s.clone()),
    }
}

/// Reads an optional string back; accepts exactly `null` and strings.
pub fn opt_str_from_json(j: &Json) -> (r: Option<Option<String>>)
    ensures
        match r {
            Some(o) => j@ == opt_str_jsonv(opt_str_view(o)),
            None => !(j@ is Null) && !(j@ is Str),
        },
{
    match j {
        Json::Null => Some(Option::None),
        Json::Str(s) => Some(Option::Some(s.clone())),
        _ => None,
    }
}

/// The wire form of an optional number.
pub open spec fn opt_uint_jsonv(o: Option<u64>) -> JsonV {
    match o {
        Option::None => JsonV::Null,
        Option::Some(n) => JsonV::UInt(n),
    }
}

/// An optional 32-bit number widened for the wire.
pub open spec fn opt_u32_widen(o: Option<u32>) -> Option<u64> {
    match o {
        Option::None => Option::None,
        Option::Some(n) => Option::Some(n as u64),
    }
}

/// Builds the wire form of an optional 32-bit number.
pub fn opt_u32_to_json(o: &Option<u32>) -> (j: Json)
    ensures
        j@ == opt_uint_jsonv(opt_u32_widen(*o)),
{
    match o {
        Option::None => Json::Null,
        Option::Some(n) => Json::UInt(*n as u64),
    }
}

/// Reads an optional 32-bit number back.
pub fn opt_u32_from_json(j: &Json) -> (r: Option<Option<u32>>)
    ensures
        match r {
            Some(o) => j@ == opt_uint_jsonv(opt_u32_widen(o)),
            None => !(j@ is Null) && !(j@ matches JsonV::UInt(n) && n <= u32::MAX),
        },
{
    match j {
        Json::Null => Some(Option::None),
        Json::UInt(n) => {
            if *n <= u32::MAX as u64 {
                Some(Option::Some(*n as u32))
            } else {
                None
            }
        },
        _ => None,
    }
}

/// The wire form of a money amount: its canonical text.
pub open spec fn money_jsonv(m: Money) -> JsonV {
    JsonV::Str(money_chars(m))
}

/// Whether a JSON value is the canonical wire form of some amount.
pub open spec fn is_money_shape(v: JsonV) -> bool {
    v matches JsonV::Str(t) && parse_money(t) matches Some(m) && money_chars(m) == t
}

/// Builds the wire form of an amount.
pub fn money_to_json(m: &Money) -> (j: Json)
    ensures
        j@ == money_jsonv(*m),
{
    Json::Str(m.to_text())
}

/// Reads an amount back; accepts exactly canonical amount texts.
pub fn money_from_json(j: &Json) -> (r: Option<Money>)
    ensures
        match r {
            Some(m) => j@ == money_jsonv(m),
            None => !is_money_shape(j@),
        },
{
    let s = match j {
        Json::Str(s) => s,
        _ => {
            return None;
        },
    };
    let m = match Money::parse_text(s.as_str()) {
        Some(m) => m,
        None => {
            return None;
        },
    };
    let canonical = m.to_text();
    if str_eq(s.as_str(), canonical.as_str()) {
        Some(m)
    } else {
        proof {
            if is_money_shape(j@) {
                assert(parse_money(s@) == Some(m));
            }
        }
        None
    }
}

/// Every amount's wire form has the money shape.
pub proof fn lemma_money_jsonv_shape(m: Money)
    ensures
        is_money_shape(money_jsonv(m)),
{
    crate::money::lemma_money_round_trip(m);
}

} // verus!

verus! {

// ---------------------------------------------------------------------
// Arrays of strings and of bytes
// ---------------------------------------------------------------------

/// The wire forms of a sequence of strings.
pub open spec fn strings_jsonv(s: Seq<String>) -> Seq<JsonV> {
    Seq::new(s.len(), |i: int| JsonV::Str(s[i]@))
}

/// Whether a JSON value is an array of strings.
pub open spec fn is_strings_shape(v: JsonV) -> bool {
    v matches JsonV::Arr(aa) && (forall|q: int| 0 <= q < aa.len() ==> (#[trigger] aa[q]) is Str)
}

/// An array with one non-string element is not an array of strings.
proof fn lemma_not_strings_shape(v: JsonV, i: int)
    requires
        v is Arr,
        0 <= i < v->Arr_0.len(),
        !(v->Arr_0[i] is Str),
    ensures
        !is_strings_shape(v),
{
    if is_strings_shape(v) {
        assert(v->Arr_0[i] is Str);
    }
}

/// Builds a wire array of strings.
#[verifier::loop_isolation(false)]
pub fn strings_to_json(v: &Vec<String>) -> (j: Json)
    ensures
        j@ == JsonV::Arr(strings_jsonv(v@)),
{
    let mut items: Vec<Json> = Vec::new();
    let m = v.len();
    for i in 0..m
        invariant
            m == v@.len(),
            jsons_view(items@) == strings_jsonv(v@).take(i as int),
    {
        let jx = Json::Str(v[i].clone());
        proof {
            lemma_jsons_view_push(items@, jx);
            assert(strings_jsonv(v@).take(i + 1) =~= strings_jsonv(v@).take(i as int).push(
                strings_jsonv(v@)[i as int],
            ));
        }
        items.push(jx);
    }
    proof {
        assert(strings_jsonv(v@).take(m as int) =~= strings_jsonv(v@));
    }
    Json::Arr(items)
}

/// Reads a vector of strings back from a wire array.
#[verifier::loop_isolation(false)]
pub fn strings_from_json(j: &Json) -> (r: Option<Vec<String>>)
    ensures
        match r {
            Some(v) => j@ == JsonV::Arr(strings_jsonv(v@)),
            None => !is_strings_shape(j@),
        },
{
    let items = match j {
        Json::Arr(it) => it,
        _ => {
            return None;
        },
    };
    proof {
        lemma_jsons_view(items@);
    }
    let mut out_vec: Vec<String> = Vec::new();
    let m = items.len();
    for i in 0..m
        invariant
            m == items@.len(),
            j@ == JsonV::Arr(jsons_view(items@)),
            out_vec@.len() == i,
            strings_jsonv(out_vec@) == jsons_view(items@).take(i as int),
    {
        let x = match &items[i] {
            Json::Str(sv) => sv.clone(),
            _ => {
                proof {
                    assert(j@->Arr_0 == jsons_view(items@));
                    lemma_not_strings_shape(j@, i as int);
                }
                return None;
            },
        };
        out_vec.push(x);
        proof {
            assert(strings_jsonv(out_vec@) =~= jsons_view(items@).take(i + 1));
        }
    }
    proof {
        assert(jsons_view(items@).take(m as int) =~= jsons_view(items@));
        assert(out_vec@.len() == m);
        assert(j@ == JsonV::Arr(jsons_view(items@)));
    }
    Some(out_vec)
}

/// The wire forms of a byte string: an array of small numbers.
pub open spec fn bytes_jsonv(s: Seq<u8>) -> Seq<JsonV> {
    Seq::new(s.len(), |i: int| JsonV::UInt(s[i] as u64))
}

/// Whether a JSON value is an array of byte-sized numbers.
pub open spec fn is_bytes_shape(v: JsonV) -> bool {
    v matches JsonV::Arr(aa) && (forall|q: int|
        0 <= q < aa.len() ==> ((#[trigger] aa[q]) matches JsonV::UInt(nn) && nn <= 255))
}

/// An array with one element out of byte range is not a byte array.
proof fn lemma_not_bytes_shape(v: JsonV, i: int)
    requires
        v is Arr,
        0 <= i < v->Arr_0.len(),
        !(v->Arr_0[i] matches JsonV::UInt(nn) && nn <= 255),
    ensures
        !is_bytes_shape(v),
{
    if is_bytes_shape(v) {
        assert(v->Arr_0[i] matches JsonV::UInt(nn) && nn <= 255);
    }
}

/// Builds a wire array from bytes.
#[verifier::loop_isolation(false)]
pub fn bytes_to_json(v: &Vec<u8>) -> (j: Json)
    ensures
        j@ == JsonV::Arr(bytes_jsonv(v@)),
{
    let mut items: Vec<Json> = Vec::new();
    let m = v.len();
    for i in 0..m
        invariant
            m == v@.len(),
            jsons_view(items@) == bytes_jsonv(v@).take(i as int),
    {
        let jx = Json::UInt(v[i] as u64);
        proof {
            lemma_jsons_view_push(items@, jx);
            assert(bytes_jsonv(v@).take(i + 1) =~= bytes_jsonv(v@).take(i as int).push(
                bytes_jsonv(v@)[i as int],
            ));
        }
        items.push(jx);
    }
    proof {
        assert(bytes_jsonv(v@).take(m as int) =~= bytes_jsonv(v@));
    }
    Json::Arr(items)
}

/// Reads bytes back from a wire array; each element must be a number
/// no greater than 255.
#[verifier::loop_isolation(false)]
pub fn bytes_from_json(j: &Json) -> (r: Option<Vec<u8>>)
    ensures
        match r {
            Some(v) => j@ == JsonV::Arr(bytes_jsonv(v@)),
            None => !is_bytes_shape(j@),
        },
{
    let items = match j {
        Json::Arr(it) => it,
        _ => {
            return None;
        },
    };
    proof {
        lemma_jsons_view(items@);
    }
    let mut out_vec: Vec<u8> = Vec::new();
    let m = items.len();
    for i in 0..m
        invariant
            m == items@.len(),
            j@ == JsonV::Arr(jsons_view(items@)),
            out_vec@.len() == i,
            bytes_jsonv(out_vec@) == jsons_view(items@).take(i as int),
    {
        let x = match &items[i] {
            Json::UInt(nv) => {
                if *nv > 255 {
                    proof {
                        assert(j@->Arr_0 == jsons_view(items@));
                        lemma_not_bytes_shape(j@, i as int);
                    }
                    return None;
                }
                *nv as u8
            },
            _ => {
                proof {
                    assert(j@->Arr_0 == jsons_view(items@));
                    lemma_not_bytes_shape(j@, i as int);
                }
                return None;
            },
        };
        out_vec.push(x);
        proof {
            assert(bytes_jsonv(out_vec@) =~= jsons_view(items@).take(i + 1));
        }
    }
    proof {
        assert(jsons_view(items@).take(m as int) =~= jsons_view(items@));
        assert(out_vec@.len() == m);
        assert(j@ == JsonV::Arr(jsons_view(items@)));
    }
    Some(out_vec)
}

} // verus!

verus! {

/// GPUVendor on the wire: one of its tag strings.
#[derive(Debug, Clone, Copy, PartialEq, Eq)]
pub enum GPUVendor {
    NVIDIA,
    AMD,
    Intel,
    Apple,
}

impl GPUVendor {
    /// The tag this variant carries on the wire.
    pub open spec fn tagv(self) -> Seq<char> {
        match self {
        GPUVendor::NVIDIA => "NVIDIA"@,
        GPUVendor::AMD => "AMD"@,
        GPUVendor::Intel => "Intel"@,
        GPUVendor::Apple => "Apple"@,
        }
    }

    /// The wire form: the tag as a string.
    pub open spec fn jsonv(self) -> JsonV {
        JsonV::Str(self.tagv())
    }

    /// Whether a JSON value is one of this type's tags.
    pub open spec fn is_shape(v: JsonV) -> bool {
        v matches JsonV::Str(tt) && (tt == "NVIDIA"@ || tt == "AMD"@ || tt == "Intel"@ || tt == "Apple"@)
    }

    /// Every variant's wire form has the shape.
    pub proof fn lemma_shape(p: Self)
        ensures
            Self::is_shape(p.jsonv()),
    {
    }

    /// Builds the wire form.
    pub fn to_json(&self) -> (j: Json)
        ensures
            j@ == self.jsonv(),
    {
        match self {
        GPUVendor::NVIDIA => Json::Str("NVIDIA".to_owned()),
        GPUVendor::AMD => Json::Str("AMD".to_owned()),
        GPUVendor::Intel => Json::Str("Intel".to_owned()),
        GPUVendor::Apple => Json::Str("Apple".to_owned()),
        }
    }

    /// Reads a variant back; accepts exactly the tags.
    pub fn from_json(j: &Json) -> (r: Option<Self>)
        ensures
            match r {
                Some(p) => j@ == p.jsonv(),
                None => !Self::is_shape(j@),
            },
    {
        let sv = match j {
            Json::Str(sv) => sv,
            _ => {
                return None;
            },
        };
        if str_eq(sv.as_str(), "NVIDIA") {
            return Some(GPUVendor::NVIDIA);
        }
        if str_eq(sv.as_str(), "AMD") {
            return Some(GPUVendor::AMD);
        }
        if str_eq(sv.as_str(), "Intel") {
            return Some(GPUVendor::Intel);
        }
        if str_eq(sv.as_str(), "Apple") {
            return Some(GPUVendor::Apple);
        }
        None
    }
}


/// AgentStatus on the wire: one of its tag strings.
#[derive(Debug, Clone, Copy, PartialEq, Eq)]
pub enum AgentStatus {
    Idle,
    Working,
    Error,
    Offline,
}

impl AgentStatus {
    /// The tag this variant carries on the wire.
    pub open spec fn tagv(self) -> Seq<char> {
        match self {
        AgentStatus::Idle => "idle"@,
        AgentStatus::Working => "working"@,
        AgentStatus::Error => "error"@,
        AgentStatus::Offline => "offline"@,
        }
    }

    /// The wire form: the tag as a string.
    pub open spec fn jsonv(self) -> JsonV {
        JsonV::Str(self.tagv())
    }

    /// Whether a JSON value is one of this type's tags.
    pub open spec fn is_shape(v: JsonV) -> bool {
        v matches JsonV::Str(tt) && (tt == "idle"@ || tt == "working"@ || tt == "error"@ || tt == "offline"@)
    }

    /// Every variant's wire form has the shape.
    pub proof fn lemma_shape(p: Self)
        ensures
            Self::is_shape(p.jsonv()),
    {
    }

    /// Builds the wire form.
    pub fn to_json(&self) -> (j: Json)
        ensures
            j@ == self.jsonv(),
    {
        match self {
        AgentStatus::Idle => Json::Str("idle".to_owned()),
        AgentStatus::Working => Json::Str("working".to_owned()),
        AgentStatus::Error => Json::Str("error".to_owned()),
        AgentStatus::Offline => Json::Str("offline".to_owned()),
        }
    }

    /// Reads a variant back; accepts exactly the tags.
    pub fn from_json(j: &Json) -> (r: Option<Self>)
        ensures
            match r {
                Some(p) => j@ == p.jsonv(),
                None => !Self::is_shape(j@),
            },
    {
        let sv = match j {
            Json::Str(sv) => sv,
            _ => {
                return None;
            },
        };
        if str_eq(sv.as_str(), "idle") {
            return Some(AgentStatus::Idle);
        }
        if str_eq(sv.as_str(), "working") {
            return Some(AgentStatus::Working);
        }
        if str_eq(sv.as_str(), "error") {
            return Some(AgentStatus::Error);
        }
        if str_eq(sv.as_str(), "offline") {
            return Some(AgentStatus::Offline);
        }
        None
    }
}


/// EarningStatus on the wire: one of its tag strings.
#[derive(Debug, Clone, Copy, PartialEq, Eq)]
pub enum EarningStatus {
    Pending,
    Confirmed,
    Paid,
}

impl EarningStatus {
    /// The tag this variant carries on the wire.
    pub open spec fn tagv(self) -> Seq<char> {
        match self {
        EarningStatus::Pending => "Pending"@,
        EarningStatus::Confirmed => "Confirmed"@,
        EarningStatus::Paid => "Paid"@,
        }
    }

    /// The wire form: the tag as a string.
    pub open spec fn jsonv(self) -> JsonV {
        JsonV::Str(self.tagv())
    }

    /// Whether a JSON value is one of this type's tags.
    pub open spec fn is_shape(v: JsonV) -> bool {
        v matches JsonV::Str(tt) && (tt == "Pending"@ || tt == "Confirmed"@ || tt == "Paid"@)
    }

    /// Every variant's wire form has the shape.
    pub proof fn lemma_shape(p: Self)
        ensures
            Self::is_shape(p.jsonv()),
    {
    }

    /// Builds the wire form.
    pub fn to_json(&self) -> (j: Json)
        ensures
            j@ == self.jsonv(),
    {
        match self {
        EarningStatus::Pending => Json::Str("Pending".to_owned()),
        EarningStatus::Confirmed => Json::Str("Confirmed".to_owned()),
        EarningStatus::Paid => Json::Str("Paid".to_owned()),
        }
    }

    /// Reads a variant back; accepts exactly the tags.
    pub fn from_json(j: &Json) -> (r: Option<Self>)
        ensures
            match r {
                Some(p) => j@ == p.jsonv(),
                None => !Self::is_shape(j@),
            },
    {
        let sv = match j {
            Json::Str(sv) => sv,
            _ => {
                return None;
            },
        };
        if str_eq(sv.as_str(), "Pending") {
            return Some(EarningStatus::Pending);
        }
        if str_eq(sv.as_str(), "Confirmed") {
            return Some(EarningStatus::Confirmed);
        }
        if str_eq(sv.as_str(), "Paid") {
            return Some(EarningStatus::Paid);
        }
        None
    }
}


/// PayoutStatus on the wire: one of its tag strings.
#[derive(Debug, Clone, Copy, PartialEq, Eq)]
pub enum PayoutStatus {
    Processing,
    Completed,
    Failed,
}

impl PayoutStatus {
    /// The tag this variant carries on the wire.
    pub open spec fn tagv(self) -> Seq<char> {
        match self {
        PayoutStatus::Processing => "Processing"@,
        PayoutStatus::Completed => "Completed"@,
        PayoutStatus::Failed => "Failed"@,
        }
    }

    /// The wire form: the tag as a string.
    pub open spec fn jsonv(self) -> JsonV {
        JsonV::Str(self.tagv())
    }

    /// Whether a JSON value is one of this type's tags.
    pub open spec fn is_shape(v: JsonV) -> bool {
        v matches JsonV::Str(tt) && (tt == "Processing"@ || tt == "Completed"@ || tt == "Failed"@)
    }

    /// Every variant's wire form has the shape.
    pub proof fn lemma_shape(p: Self)
        ensures
            Self::is_shape(p.jsonv()),
    {
    }

    /// Builds the wire form.
    pub fn to_json(&self) -> (j: Json)
        ensures
            j@ == self.jsonv(),
    {
        match self {
        PayoutStatus::Processing => Json::Str("Processing".to_owned()),
        PayoutStatus::Completed => Json::Str("Completed".to_owned()),
        PayoutStatus::Failed => Json::Str("Failed".to_owned()),
        }
    }

    /// Reads a variant back; accepts exactly the tags.
    pub fn from_json(j: &Json) -> (r: Option<Self>)
        ensures
            match r {
                Some(p) => j@ == p.jsonv(),
                None => !Self::is_shape(j@),
            },
    {
        let sv = match j {
            Json::Str(sv) => sv,
            _ => {
                return None;
            },
        };
        if str_eq(sv.as_str(), "Processing") {
            return Some(PayoutStatus::Processing);
        }
        if str_eq(sv.as_str(), "Completed") {
            return Some(PayoutStatus::Completed);
        }
        if str_eq(sv.as_str(), "Failed") {
            return Some(PayoutStatus::Failed);
        }
        None
    }
}


/// Wire type `CPUInfo`.
#[derive(Debug, Clone, PartialEq)]
pub struct CPUInfo {
    pub model: String,
    pub cores: u32,
    pub threads: u32,
}

impl CPUInfo {
    /// This value's fields in wire order.
    pub open spec fn fieldsv(self) -> Seq<(Seq<char>, JsonV)> {
        seq![
            ("model"@, JsonV::Str(self.model@)),
            ("cores"@, JsonV::UInt(self.cores as u64)),
            ("threads"@, JsonV::UInt(self.threads as u64)),
        ]
    }

    /// The wire form: one object with the fields in order.
    pub open spec fn jsonv(self) -> JsonV {
        JsonV::Obj(self.fieldsv())
    }

    /// Whether a JSON value has this type's wire shape.
    pub open spec fn is_shape(v: JsonV) -> bool {
        &&& v matches JsonV::Obj(fs)
        &&& fs.len() == 3
        &&& fs[0].0 == "model"@
        &&& fs[0].1 is Str
        &&& fs[1].0 == "cores"@
        &&& (fs[1].1 matches JsonV::UInt(nn) && nn <= u32::MAX)
        &&& fs[2].0 == "threads"@
        &&& (fs[2].1 matches JsonV::UInt(nn) && nn <= u32::MAX)
    }

    /// Reads a value back; accepts exactly this type's wire shape.
    pub fn from_json(j: &Json) -> (r: Option<Self>)
        ensures
            match r {
                Some(p) => j@ == p.jsonv(),
                None => !Self::is_shape(j@),
            },
    {
        let fields = match j {
            Json::Obj(fsx) => fsx,
            _ => {
                return None;
            },
        };
        proof {
            lemma_fields_view(fields@);
        }
        if fields.len() != 3 {
            return None;
        }
        if !key_is(&fields[0], "model") {
            return None;
        }
        if !key_is(&fields[1], "cores") {
            return None;
        }
        if !key_is(&fields[2], "threads") {
            return None;
        }
        let model = match &fields[0].1 {
            Json::Str(sv) => sv.clone(),
            _ => {
                return None;
            },
        };
        let cores = match &fields[1].1 {
            Json::UInt(nv) => {
                if *nv > u32::MAX as u64 {
                    return None;
                }
                *nv as u32
            },
            _ => {
                return None;
            },
        };
        let threads = match &fields[2].1 {
            Json::UInt(nv) => {
                if *nv > u32::MAX as u64 {
                    return None;
                }
                *nv as u32
            },
            _ => {
                return None;
            },
        };
        let p = CPUInfo { model, cores, threads };
        proof {
            assert(fields_view(fields@) =~= p.fieldsv());
        }
        Some(p)
    }

    /// Builds the wire form: one object with the fields in order.
    pub fn to_json(&self) -> (j: Json)
        ensures
            j@ == self.jsonv(),
    {
        let mut fs: Vec<(String, Json)> = Vec::new();
        proof {
            assert(fields_view(fs@) == Seq::<(Seq<char>, JsonV)>::empty());
        }
        push_field(&mut fs, "model", Json::Str(self.model.clone()));
        push_field(&mut fs, "cores", Json::UInt(self.cores as u64));
        push_field(&mut fs, "threads", Json::UInt(self.threads as u64));
        proof {
            assert(fields_view(fs@) =~= self.fieldsv());
        }
        Json::Obj(fs)
    }

    /// Every value's wire form has the shape.
    pub proof fn lemma_shape(p: Self)
        ensures
            Self::is_shape(p.jsonv()),
    {

    }
}


/// Wire type `GPUInfo`.
#[derive(Debug, Clone, PartialEq)]
pub struct GPUInfo {
    pub index: u32,
    pub vendor: GPUVendor,
    pub model: String,
    pub vram_gb: u32,
    pub compute_capability: String,
    pub cuda_cores: Option<u32>,
    pub pcie_bandwidth_gbps: u32,
}

impl GPUInfo {
    /// This value's fields in wire order.
    pub open spec fn fieldsv(self) -> Seq<(Seq<char>, JsonV)> {
        seq![
            ("index"@, JsonV::UInt(self.index as u64)),
            ("vendor"@, self.vendor.jsonv()),
            ("model"@, JsonV::Str(self.model@)),
            ("vram_gb"@, JsonV::UInt(self.vram_gb as u64)),
            ("compute_capability"@, JsonV::Str(self.compute_capability@)),
            ("cuda_cores"@, opt_uint_jsonv(opt_u32_widen(self.cuda_cores))),
            ("pcie_bandwidth_gbps"@, JsonV::UInt(self.pcie_bandwidth_gbps as u64)),
        ]
    }

    /// The wire form: one object with the fields in order.
    pub open spec fn jsonv(self) -> JsonV {
        JsonV::Obj(self.fieldsv())
    }

    /// Whether a JSON value has this type's wire shape.
    pub open spec fn is_shape(v: JsonV) -> bool {
        &&& v matches JsonV::Obj(fs)
        &&& fs.len() == 7
        &&& fs[0].0 == "index"@
        &&& (fs[0].1 matches JsonV::UInt(nn) && nn <= u32::MAX)
        &&& fs[1].0 == "vendor"@
        &&& GPUVendor::is_shape(fs[1].1)
        &&& fs[2].0 == "model"@
        &&& fs[2].1 is Str
        &&& fs[3].0 == "vram_gb"@
        &&& (fs[3].1 matches JsonV::UInt(nn) && nn <= u32::MAX)
        &&& fs[4].0 == "compute_capability"@
        &&& fs[4].1 is Str
        &&& fs[5].0 == "cuda_cores"@
        &&& (fs[5].1 is Null || (fs[5].1 matches JsonV::UInt(nn) && nn <= u32::MAX))
        &&& fs[6].0 == "pcie_bandwidth_gbps"@
        &&& (fs[6].1 matches JsonV::UInt(nn) && nn <= u32::MAX)
    }

    /// Reads a value back; accepts exactly this type's wire shape.
    pub fn from_json(j: &Json) -> (r: Option<Self>)
        ensures
            match r {
                Some(p) => j@ == p.jsonv(),
                None => !Self::is_shape(j@),
            },
    {
        let fields = match j {
            Json::Obj(fsx) => fsx,
            _ => {
                return None;
            },
        };
        proof {
            lemma_fields_view(fields@);
        }
        if fields.len() != 7 {
            return None;
        }
        if !key_is(&fields[0], "index") {
            return None;
        }
        if !key_is(&fields[1], "vendor") {
            return None;
        }
        if !key_is(&fields[2], "model") {
            return None;
        }
        if !key_is(&fields[3], "vram_gb") {
            return None;
        }
        if !key_is(&fields[4], "compute_capability") {
            return None;
        }
        if !key_is(&fields[5], "cuda_cores") {
            return None;
        }
        if !key_is(&fields[6], "pcie_bandwidth_gbps") {
            return None;
        }
        let index = match &fields[0].1 {
            Json::UInt(nv) => {
                if *nv > u32::MAX as u64 {
                    return None;
                }
                *nv as u32
            },
            _ => {
                return None;
            },
        };
        let vendor = match GPUVendor::from_json(&fields[1].1) {
            Some(tv) => tv,
            None => {
                return None;
            },
        };
        let model = match &fields[2].1 {
            Json::Str(sv) => sv.clone(),
            _ => {
                return None;
            },
        };
        let vram_gb = match &fields[3].1 {
            Json::UInt(nv) => {
                if *nv > u32::MAX as u64 {
                    return None;
                }
                *nv as u32
            },
            _ => {
                return None;
            },
        };
        let compute_capability = match &fields[4].1 {
            Json::Str(sv) => sv.clone(),
            _ => {
                return None;
            },
        };
        let cuda_cores = match opt_u32_from_json(&fields[5].1) {
            Some(ov) => ov,
            None => {
                return None;
            },
        };
        let pcie_bandwidth_gbps = match &fields[6].1 {
            Json::UInt(nv) => {
                if *nv > u32::MAX as u64 {
                    return None;
                }
                *nv as u32
            },
            _ => {
                return None;
            },
        };
        let p = GPUInfo { index, vendor, model, vram_gb, compute_capability, cuda_cores, pcie_bandwidth_gbps };
        proof {
            assert(fields_view(fields@) =~= p.fieldsv());
        }
        Some(p)
    }

    /// Builds the wire form: one object with the fields in order.
    pub fn to_json(&self) -> (j: Json)
        ensures
            j@ == self.jsonv(),
    {
        let mut fs: Vec<(String, Json)> = Vec::new();
        proof {
            assert(fields_view(fs@) == Seq::<(Seq<char>, JsonV)>::empty());
        }
        push_field(&mut fs, "index", Json::UInt(self.index as u64));
        push_field(&mut fs, "vendor", self.vendor.to_json());
        push_field(&mut fs, "model", Json::Str(self.model.clone()));
        push_field(&mut fs, "vram_gb", Json::UInt(self.vram_gb as u64));
        push_field(&mut fs, "compute_capability", Json::Str(self.compute_capability.clone()));
        push_field(&mut fs, "cuda_cores", opt_u32_to_json(&self.cuda_cores));
        push_field(&mut fs, "pcie_bandwidth_gbps", Json::UInt(self.pcie_bandwidth_gbps as u64));
        proof {
            assert(fields_view(fs@) =~= self.fieldsv());
        }
        Json::Obj(fs)
    }

    /// Every value's wire form has the shape.
    pub proof fn lemma_shape(p: Self)
        ensures
            Self::is_shape(p.jsonv()),
    {
    GPUVendor::lemma_shape(p.vendor);
    }
    /// The wire forms of a sequence of values.
    pub open spec fn list_jsonv(s: Seq<GPUInfo>) -> Seq<JsonV> {
        Seq::new(s.len(), |i: int| s[i].jsonv())
    }

    /// Whether a JSON value is an array of values of this shape.
    pub open spec fn arr_shape(v: JsonV) -> bool {
        v matches JsonV::Arr(aa) && (forall|q: int|
            0 <= q < aa.len() ==> GPUInfo::is_shape(#[trigger] aa[q]))
    }

    /// An array with one out-of-shape element is not in shape.
    proof fn lemma_not_arr_shape(v: JsonV, i: int)
        requires
            v is Arr,
            0 <= i < v->Arr_0.len(),
            !GPUInfo::is_shape(v->Arr_0[i]),
        ensures
            !GPUInfo::arr_shape(v),
    {
        if GPUInfo::arr_shape(v) {
            assert(GPUInfo::is_shape(v->Arr_0[i]));
        }
    }

    /// Builds a wire array from a vector of values.
    #[verifier::loop_isolation(false)]
    pub fn vec_to_json(v: &Vec<GPUInfo>) -> (j: Json)
        ensures
            j@ == JsonV::Arr(GPUInfo::list_jsonv(v@)),
    {
        let mut items: Vec<Json> = Vec::new();
        let m = v.len();
        for i in 0..m
            invariant
                m == v@.len(),
                jsons_view(items@) == GPUInfo::list_jsonv(v@).take(i as int),
        {
            let jx = v[i].to_json();
            proof {
                lemma_jsons_view_push(items@, jx);
                assert(GPUInfo::list_jsonv(v@).take(i + 1) =~= GPUInfo::list_jsonv(v@).take(
                    i as int,
                ).push(GPUInfo::list_jsonv(v@)[i as int]));
            }
            items.push(jx);
        }
        proof {
            assert(GPUInfo::list_jsonv(v@).take(m as int) =~= GPUInfo::list_jsonv(v@));
        }
        Json::Arr(items)
    }

    /// Reads a vector of values back from a wire array.
    #[verifier::loop_isolation(false)]
    pub fn vec_from_json(j: &Json) -> (r: Option<Vec<GPUInfo>>)
        ensures
            match r {
                Some(v) => j@ == JsonV::Arr(GPUInfo::list_jsonv(v@)),
                None => !GPUInfo::arr_shape(j@),
            },
    {
        let items = match j {
            Json::Arr(it) => it,
            _ => {
                return None;
            },
        };
        proof {
            lemma_jsons_view(items@);
        }
        let mut out_vec: Vec<GPUInfo> = Vec::new();
        let m = items.len();
        for i in 0..m
            invariant
                m == items@.len(),
                j@ == JsonV::Arr(jsons_view(items@)),
                out_vec@.len() == i,
                GPUInfo::list_jsonv(out_vec@) == jsons_view(items@).take(i as int),
        {
            let x = match GPUInfo::from_json(&items[i]) {
                Some(x) => x,
                None => {
                    proof {
                        assert(j@->Arr_0 == jsons_view(items@));
                        GPUInfo::lemma_not_arr_shape(j@, i as int);
                    }
                    return None;
                },
            };
            out_vec.push(x);
            proof {
                assert(GPUInfo::list_jsonv(out_vec@) =~= jsons_view(items@).take(i + 1));
            }
        }
        proof {
            assert(jsons_view(items@).take(m as int) =~= jsons_view(items@));
            assert(out_vec@.len() == m);
            assert(j@ == JsonV::Arr(jsons_view(items@)));
        }
        Some(out_vec)
    }

}


/// Wire type `HardwareInfo`.
#[derive(Debug, Clone, PartialEq)]
pub struct HardwareInfo {
    pub gpus: Vec<GPUInfo>,
    pub cpu: CPUInfo,
    pub memory_gb: u32,
    pub storage_available_gb: u32,
}

impl HardwareInfo {
    /// This value's fields in wire order.
    pub open spec fn fieldsv(self) -> Seq<(Seq<char>, JsonV)> {
        seq![
            ("gpus"@, JsonV::Arr(GPUInfo::list_jsonv(self.gpus@))),
            ("cpu"@, self.cpu.jsonv()),
            ("memory_gb"@, JsonV::UInt(self.memory_gb as u64)),
            ("storage_available_gb"@, JsonV::UInt(self.storage_available_gb as u64)),
        ]
    }

    /// The wire form: one object with the fields in order.
    pub open spec fn jsonv(self) -> JsonV {
        JsonV::Obj(self.fieldsv())
    }

    /// Whether a JSON value has this type's wire shape.
    pub open spec fn is_shape(v: JsonV) -> bool {
        &&& v matches JsonV::Obj(fs)
        &&& fs.len() == 4
        &&& fs[0].0 == "gpus"@
        &&& GPUInfo::arr_shape(fs[0].1)
        &&& fs[1].0 == "cpu"@
        &&& CPUInfo::is_shape(fs[1].1)
        &&& fs[2].0 == "memory_gb"@
        &&& (fs[2].1 matches JsonV::UInt(nn) && nn <= u32::MAX)
        &&& fs[3].0 == "storage_available_gb"@
        &&& (fs[3].1 matches JsonV::UInt(nn) && nn <= u32::MAX)
    }

    /// Reads a value back; accepts exactly this type's wire shape.
    pub fn from_json(j: &Json) -> (r: Option<Self>)
        ensures
            match r {
                Some(p) => j@ == p.jsonv(),
                None => !Self::is_shape(j@),
            },
    {
        let fields = match j {
            Json::Obj(fsx) => fsx,
            _ => {
                return None;
            },
        };
        proof {
            lemma_fields_view(fields@);
        }
        if fields.len() != 4 {
            return None;
        }
        if !key_is(&fields[0], "gpus") {
            return None;
        }
        if !key_is(&fields[1], "cpu") {
            return None;
        }
        if !key_is(&fields[2], "memory_gb") {
            return None;
        }
        if !key_is(&fields[3], "storage_available_gb") {
            return None;
        }
        let gpus = match GPUInfo::vec_from_json(&fields[0].1) {
            Some(vv) => vv,
            None => {
                return None;
            },
        };
        let cpu = match CPUInfo::from_json(&fields[1].1) {
            Some(tv) => tv,
            None => {
                return None;
            },
        };
        let memory_gb = match &fields[2].1 {
            Json::UInt(nv) => {
                if *nv > u32::MAX as u64 {
                    return None;
                }
                *nv as u32
            },
            _ => {
                return None;
            },
        };
        let storage_available_gb = match &fields[3].1 {
            Json::UInt(nv) => {
                if *nv > u32::MAX as u64 {
                    return None;
                }
                *nv as u32
            },
            _ => {
                return None;
            },
        };
        let p = HardwareInfo { gpus, cpu, memory_gb, storage_available_gb };
        proof {
            assert(fields_view(fields@) =~= p.fieldsv());
        }
        Some(p)
    }

    /// Builds the wire form: one object with the fields in order.
    pub fn to_json(&self) -> (j: Json)
        ensures
            j@ == self.jsonv(),
    {
        let mut fs: Vec<(String, Json)> = Vec::new();
        proof {
            assert(fields_view(fs@) == Seq::<(Seq<char>, JsonV)>::empty());
        }
        push_field(&mut fs, "gpus", GPUInfo::vec_to_json(&self.gpus));
        push_field(&mut fs, "cpu", self.cpu.to_json());
        push_field(&mut fs, "memory_gb", Json::UInt(self.memory_gb as u64));
        push_field(&mut fs, "storage_available_gb", Json::UInt(self.storage_available_gb as u64));
        proof {
            assert(fields_view(fs@) =~= self.fieldsv());
        }
        Json::Obj(fs)
    }

    /// Every value's wire form has the shape.
    pub proof fn lemma_shape(p: Self)
        ensures
            Self::is_shape(p.jsonv()),
    {
    assert forall|q: int| 0 <= q < GPUInfo::list_jsonv(p.gpus@).len() implies GPUInfo::is_shape(
        #[trigger] GPUInfo::list_jsonv(p.gpus@)[q],
    ) by {
        GPUInfo::lemma_shape(p.gpus@[q]);
    }
    CPUInfo::lemma_shape(p.cpu);
    }
}


/// Wire type `Capabilities`.
#[derive(Debug, Clone, PartialEq)]
pub struct Capabilities {
    pub supported_frameworks: Vec<String>,
    pub max_batch_size: u32,
    pub fp16_support: bool,
    pub int8_support: bool,
}

impl Capabilities {
    /// This value's fields in wire order.
    pub open spec fn fieldsv(self) -> Seq<(Seq<char>, JsonV)> {
        seq![
            ("supported_frameworks"@, JsonV::Arr(strings_jsonv(self.supported_frameworks@))),
            ("max_batch_size"@, JsonV::UInt(self.max_batch_size as u64)),
            ("fp16_support"@, JsonV::Bool(self.fp16_support)),
            ("int8_support"@, JsonV::Bool(self.int8_support)),
        ]
    }

    /// The wire form: one object with the fields in order.
    pub open spec fn jsonv(self) -> JsonV {
        JsonV::Obj(self.fieldsv())
    }

    /// Whether a JSON value has this type's wire shape.
    pub open spec fn is_shape(v: JsonV) -> bool {
        &&& v matches JsonV::Obj(fs)
        &&& fs.len() == 4
        &&& fs[0].0 == "supported_frameworks"@
        &&& is_strings_shape(fs[0].1)
        &&& fs[1].0 == "max_batch_size"@
        &&& (fs[1].1 matches JsonV::UInt(nn) && nn <= u32::MAX)
        &&& fs[2].0 == "fp16_support"@
        &&& fs[2].1 is Bool
        &&& fs[3].0 == "int8_support"@
        &&& fs[3].1 is Bool
    }

    /// Reads a value back; accepts exactly this type's wire shape.
    pub fn from_json(j: &Json) -> (r: Option<Self>)
        ensures
            match r {
                Some(p) => j@ == p.jsonv(),
                None => !Self::is_shape(j@),
            },
    {
        let fields = match j {
            Json::Obj(fsx) => fsx,
            _ => {
                return None;
            },
        };
        proof {
            lemma_fields_view(fields@);
        }
        if fields.len() != 4 {
            return None;
        }
        if !key_is(&fields[0], "supported_frameworks") {
            return None;
        }
        if !key_is(&fields[1], "max_batch_size") {
            return None;
        }
        if !key_is(&fields[2], "fp16_support") {
            return None;
        }
        if !key_is(&fields[3], "int8_support") {
            return None;
        }
        let supported_frameworks = match strings_from_json(&fields[0].1) {
            Some(vv) => vv,
            None => {
                return None;
            },
        };
        let max_batch_size = match &fields[1].1 {
            Json::UInt(nv) => {
                if *nv > u32::MAX as u64 {
                    return None;
                }
                *nv as u32
            },
            _ => {
                return None;
            },
        };
        let fp16_support = match &fields[2].1 {
            Json::Bool(bv) => *bv,
            _ => {
                return None;
            },
        };
        let int8_support = match &fields[3].1 {
            Json::Bool(bv) => *bv,
            _ => {
                return None;
            },
        };
        let p = Capabilities { supported_frameworks, max_batch_size, fp16_support, int8_support };
        proof {
            assert(fields_view(fields@) =~= p.fieldsv());
        }
        Some(p)
    }

    /// Builds the wire form: one object with the fields in order.
    pub fn to_json(&self) -> (j: Json)
        ensures
            j@ == self.jsonv(),
    {
        let mut fs: Vec<(String, Json)> = Vec::new();
        proof {
            assert(fields_view(fs@) == Seq::<(Seq<char>, JsonV)>::empty());
        }
        push_field(&mut fs, "supported_frameworks", strings_to_json(&self.supported_frameworks));
        push_field(&mut fs, "max_batch_size", Json::UInt(self.max_batch_size as u64));
        push_field(&mut fs, "fp16_support", Json::Bool(self.fp16_support));
        push_field(&mut fs, "int8_support", Json::Bool(self.int8_support));
        proof {
            assert(fields_view(fs@) =~= self.fieldsv());
        }
        Json::Obj(fs)
    }

    /// Every value's wire form has the shape.
    pub proof fn lemma_shape(p: Self)
        ensures
            Self::is_shape(p.jsonv()),
    {

    }
}


/// Wire type `Location`.
#[derive(Debug, Clone, PartialEq)]
pub struct Location {
    pub country: String,
    pub region: String,
    pub latency_to_platform_ms: u32,
}

impl Location {
    /// This value's fields in wire order.
    pub open spec fn fieldsv(self) -> Seq<(Seq<char>, JsonV)> {
        seq![
            ("country"@, JsonV::Str(self.country@)),
            ("region"@, JsonV::Str(self.region@)),
            ("latency_to_platform_ms"@, JsonV::UInt(self.latency_to_platform_ms as u64)),
        ]
    }

    /// The wire form: one object with the fields in order.
    pub open spec fn jsonv(self) -> JsonV {
        JsonV::Obj(self.fieldsv())
    }

    /// Whether a JSON value has this type's wire shape.
    pub open spec fn is_shape(v: JsonV) -> bool {
        &&& v matches JsonV::Obj(fs)
        &&& fs.len() == 3
        &&& fs[0].0 == "country"@
        &&& fs[0].1 is Str
        &&& fs[1].0 == "region"@
        &&& fs[1].1 is Str
        &&& fs[2].0 == "latency_to_platform_ms"@
        &&& (fs[2].1 matches JsonV::UInt(nn) && nn <= u32::MAX)
    }

    /// Reads a value back; accepts exactly this type's wire shape.
    pub fn from_json(j: &Json) -> (r: Option<Self>)
        ensures
            match r {
                Some(p) => j@ == p.jsonv(),
                None => !Self::is_shape(j@),
            },
    {
        let fields = match j {
            Json::Obj(fsx) => fsx,
            _ => {
                return None;
            },
        };
        proof {
            lemma_fields_view(fields@);
        }
        if fields.len() != 3 {
            return None;
        }
        if !key_is(&fields[0], "country") {
            return None;
        }
        if !key_is(&fields[1], "region") {
            return None;
        }
        if !key_is(&fields[2], "latency_to_platform_ms") {
            return None;
        }
        let country = match &fields[0].1 {
            Json::Str(sv) => sv.clone(),
            _ => {
                return None;
            },
        };
        let region = match &fields[1].1 {
            Json::Str(sv) => sv.clone(),
            _ => {
                return None;
            },
        };
        let latency_to_platform_ms = match &fields[2].1 {
            Json::UInt(nv) => {
                if *nv > u32::MAX as u64 {
                    return None;
                }
                *nv as u32
            },
            _ => {
                return None;
            },
        };
        let p = Location { country, region, latency_to_platform_ms };
        proof {
            assert(fields_view(fields@) =~= p.fieldsv());
        }
        Some(p)
    }

    /// Builds the wire form: one object with the fields in order.
    pub fn to_json(&self) -> (j: Json)
        ensures
            j@ == self.jsonv(),
    {
        let mut fs: Vec<(String, Json)> = Vec::new();
        proof {
            assert(fields_view(fs@) == Seq::<(Seq<char>, JsonV)>::empty());
        }
        push_field(&mut fs, "country", Json::Str(self.country.clone()));
        push_field(&mut fs, "region", Json::Str(self.region.clone()));
        push_field(&mut fs, "latency_to_platform_ms", Json::UInt(self.latency_to_platform_ms as u64));
        proof {
            assert(fields_view(fs@) =~= self.fieldsv());
        }
        Json::Obj(fs)
    }

    /// Every value's wire form has the shape.
    pub proof fn lemma_shape(p: Self)
        ensures
            Self::is_shape(p.jsonv()),
    {

    }
}


/// Wire type `Availability`.
#[derive(Debug, Clone, PartialEq)]
pub struct Availability {
    pub hours_per_day: u32,
    pub reliability_permille: u32,
}

impl Availability {
    /// This value's fields in wire order.
    pub open spec fn fieldsv(self) -> Seq<(Seq<char>, JsonV)> {
        seq![
            ("hours_per_day"@, JsonV::UInt(self.hours_per_day as u64)),
            ("reliability_permille"@, JsonV::UInt(self.reliability_permille as u64)),
        ]
    }

    /// The wire form: one object with the fields in order.
    pub open spec fn jsonv(self) -> JsonV {
        JsonV::Obj(self.fieldsv())
    }

    /// Whether a JSON value has this type's wire shape.
    pub open spec fn is_shape(v: JsonV) -> bool {
        &&& v matches JsonV::Obj(fs)
        &&& fs.len() == 2
        &&& fs[0].0 == "hours_per_day"@
        &&& (fs[0].1 matches JsonV::UInt(nn) && nn <= u32::MAX)
        &&& fs[1].0 == "reliability_permille"@
        &&& (fs[1].1 matches JsonV::UInt(nn) && nn <= u32::MAX)
    }

    /// Reads a value back; accepts exactly this type's wire shape.
    pub fn from_json(j: &Json) -> (r: Option<Self>)
        ensures
            match r {
                Some(p) => j@ == p.jsonv(),
                None => !Self::is_shape(j@),
            },
    {
        let fields = match j {
            Json::Obj(fsx) => fsx,
            _ => {
                return None;
            },
        };
        proof {
            lemma_fields_view(fields@);
        }
        if fields.len() != 2 {
            return None;
        }
        if !key_is(&fields[0], "hours_per_day") {
            return None;
        }
        if !key_is(&fields[1], "reliability_permille") {
            return None;
        }
        let hours_per_day = match &fields[0].1 {
            Json::UInt(nv) => {
                if *nv > u32::MAX as u64 {
                    return None;
                }
                *nv as u32
            },
            _ => {
                return None;
            },
        };
        let reliability_permille = match &fields[1].1 {
            Json::UInt(nv) => {
                if *nv > u32::MAX as u64 {
                    return None;
                }
                *nv as u32
            },
            _ => {
                return None;
            },
        };
        let p = Availability { hours_per_day, reliability_permille };
        proof {
            assert(fields_view(fields@) =~= p.fieldsv());
        }
        Some(p)
    }

    /// Builds the wire form: one object with the fields in order.
    pub fn to_json(&self) -> (j: Json)
        ensures
            j@ == self.jsonv(),
    {
        let mut fs: Vec<(String, Json)> = Vec::new();
        proof {
            assert(fields_view(fs@) == Seq::<(Seq<char>, JsonV)>::empty());
        }
        push_field(&mut fs, "hours_per_day", Json::UInt(self.hours_per_day as u64));
        push_field(&mut fs, "reliability_permille", Json::UInt(self.reliability_permille as u64));
        proof {
            assert(fields_view(fs@) =~= self.fieldsv());
        }
        Json::Obj(fs)
    }

    /// Every value's wire form has the shape.
    pub proof fn lemma_shape(p: Self)
        ensures
            Self::is_shape(p.jsonv()),
    {

    }
}


/// Wire type `TaskRequirements`.
#[derive(Debug, Clone, PartialEq)]
pub struct TaskRequirements {
    pub min_vram_gb: u32,
    pub min_compute_capability: String,
    pub framework: String,
    pub fp16: bool,
}

impl TaskRequirements {
    /// This value's fields in wire order.
    pub open spec fn fieldsv(self) -> Seq<(Seq<char>, JsonV)> {
        seq![
            ("min_vram_gb"@, JsonV::UInt(self.min_vram_gb as u64)),
            ("min_compute_capability"@, JsonV::Str(self.min_compute_capability@)),
            ("framework"@, JsonV::Str(self.framework@)),
            ("fp16"@, JsonV::Bool(self.fp16)),
        ]
    }

    /// The wire form: one object with the fields in order.
    pub open spec fn jsonv(self) -> JsonV {
        JsonV::Obj(self.fieldsv())
    }

    /// Whether a JSON value has this type's wire shape.
    pub open spec fn is_shape(v: JsonV) -> bool {
        &&& v matches JsonV::Obj(fs)
        &&& fs.len() == 4
        &&& fs[0].0 == "min_vram_gb"@
        &&& (fs[0].1 matches JsonV::UInt(nn) && nn <= u32::MAX)
        &&& fs[1].0 == "min_compute_capability"@
        &&& fs[1].1 is Str
        &&& fs[2].0 == "framework"@
        &&& fs[2].1 is Str
        &&& fs[3].0 == "fp16"@
        &&& fs[3].1 is Bool
    }

    /// Reads a value back; accepts exactly this type's wire shape.
    pub fn from_json(j: &Json) -> (r: Option<Self>)
        ensures
            match r {
                Some(p) => j@ == p.jsonv(),
                None => !Self::is_shape(j@),
            },
    {
        let fields = match j {
            Json::Obj(fsx) => fsx,
            _ => {
                return None;
            },
        };
        proof {
            lemma_fields_view(fields@);
        }
        if fields.len() != 4 {
            return None;
        }
        if !key_is(&fields[0], "min_vram_gb") {
            return None;
        }
        if !key_is(&fields[1], "min_compute_capability") {
            return None;
        }
        if !key_is(&fields[2], "framework") {
            return None;
        }
        if !key_is(&fields[3], "fp16") {
            return None;
        }
        let min_vram_gb = match &fields[0].1 {
            Json::UInt(nv) => {
                if *nv > u32::MAX as u64 {
                    return None;
                }
                *nv as u32
            },
            _ => {
                return None;
            },
        };
        let min_compute_capability = match &fields[1].1 {
            Json::Str(sv) => sv.clone(),
            _ => {
                return None;
            },
        };
        let framework = match &fields[2].1 {
            Json::Str(sv) => sv.clone(),
            _ => {
                return None;
            },
        };
        let fp16 = match &fields[3].1 {
            Json::Bool(bv) => *bv,
            _ => {
                return None;
            },
        };
        let p = TaskRequirements { min_vram_gb, min_compute_capability, framework, fp16 };
        proof {
            assert(fields_view(fields@) =~= p.fieldsv());
        }
        Some(p)
    }

    /// Builds the wire form: one object with the fields in order.
    pub fn to_json(&self) -> (j: Json)
        ensures
            j@ == self.jsonv(),
    {
        let mut fs: Vec<(String, Json)> = Vec::new();
        proof {
            assert(fields_view(fs@) == Seq::<(Seq<char>, JsonV)>::empty());
        }
        push_field(&mut fs, "min_vram_gb", Json::UInt(self.min_vram_gb as u64));
        push_field(&mut fs, "min_compute_capability", Json::Str(self.min_compute_capability.clone()));
        push_field(&mut fs, "framework", Json::Str(self.framework.clone()));
        push_field(&mut fs, "fp16", Json::Bool(self.fp16));
        proof {
            assert(fields_view(fs@) =~= self.fieldsv());
        }
        Json::Obj(fs)
    }

    /// Every value's wire form has the shape.
    pub proof fn lemma_shape(p: Self)
        ensures
            Self::is_shape(p.jsonv()),
    {

    }
}


/// Wire type `TaskPayload`.
#[derive(Debug, Clone, PartialEq)]
pub struct TaskPayload {
    pub model_url: String,
    pub model_hash: String,
    pub input_data_url: String,
    pub output_url: String,
    pub config: String,
}

impl TaskPayload {
    /// This value's fields in wire order.
    pub open spec fn fieldsv(self) -> Seq<(Seq<char>, JsonV)> {
        seq![
            ("model_url"@, JsonV::Str(self.model_url@)),
            ("model_hash"@, JsonV::Str(self.model_hash@)),
            ("input_data_url"@, JsonV::Str(self.input_data_url@)),
            ("output_url"@, JsonV::Str(self.output_url@)),
            ("config"@, JsonV::Str(self.config@)),
        ]
    }

    /// The wire form: one object with the fields in order.
    pub open spec fn jsonv(self) -> JsonV {
        JsonV::Obj(self.fieldsv())
    }

    /// Whether a JSON value has this type's wire shape.
    pub open spec fn is_shape(v: JsonV) -> bool {
        &&& v matches JsonV::Obj(fs)
        &&& fs.len() == 5
        &&& fs[0].0 == "model_url"@
        &&& fs[0].1 is Str
        &&& fs[1].0 == "model_hash"@
        &&& fs[1].1 is Str
        &&& fs[2].0 == "input_data_url"@
        &&& fs[2].1 is Str
        &&& fs[3].0 == "output_url"@
        &&& fs[3].1 is Str
        &&& fs[4].0 == "config"@
        &&& fs[4].1 is Str
    }

    /// Reads a value back; accepts exactly this type's wire shape.
    pub fn from_json(j: &Json) -> (r: Option<Self>)
        ensures
            match r {
                Some(p) => j@ == p.jsonv(),
                None => !Self::is_shape(j@),
            },
    {
        let fields = match j {
            Json::Obj(fsx) => fsx,
            _ => {
                return None;
            },
        };
        proof {
            lemma_fields_view(fields@);
        }
        if fields.len() != 5 {
            return None;
        }
        if !key_is(&fields[0], "model_url") {
            return None;
        }
        if !key_is(&fields[1], "model_hash") {
            return None;
        }
        if !key_is(&fields[2], "input_data_url") {
            return None;
        }
        if !key_is(&fields[3], "output_url") {
            return None;
        }
        if !key_is(&fields[4], "config") {
            return None;
        }
        let model_url = match &fields[0].1 {
            Json::Str(sv) => sv.clone(),
            _ => {
                return None;
            },
        };
        let model_hash = match &fields[1].1 {
            Json::Str(sv) => sv.clone(),
            _ => {
                return None;
            },
        };
        let input_data_url = match &fields[2].1 {
            Json::Str(sv) => sv.clone(),
            _ => {
                return None;
            },
        };
        let output_url = match &fields[3].1 {
            Json::Str(sv) => sv.clone(),
            _ => {
                return None;
            },
        };
        let config = match &fields[4].1 {
            Json::Str(sv) => sv.clone(),
            _ => {
                return None;
            },
        };
        let p = TaskPayload { model_url, model_hash, input_data_url, output_url, config };
        proof {
            assert(fields_view(fields@) =~= p.fieldsv());
        }
        Some(p)
    }

    /// Builds the wire form: one object with the fields in order.
    pub fn to_json(&self) -> (j: Json)
        ensures
            j@ == self.jsonv(),
    {
        let mut fs: Vec<(String, Json)> = Vec::new();
        proof {
            assert(fields_view(fs@) == Seq::<(Seq<char>, JsonV)>::empty());
        }
        push_field(&mut fs, "model_url", Json::Str(self.model_url.clone()));
        push_field(&mut fs, "model_hash", Json::Str(self.model_hash.clone()));
        push_field(&mut fs, "input_data_url", Json::Str(self.input_data_url.clone()));
        push_field(&mut fs, "output_url", Json::Str(self.output_url.clone()));
        push_field(&mut fs, "config", Json::Str(self.config.clone()));
        proof {
            assert(fields_view(fs@) =~= self.fieldsv());
        }
        Json::Obj(fs)
    }

    /// Every value's wire form has the shape.
    pub proof fn lemma_shape(p: Self)
        ensures
            Self::is_shape(p.jsonv()),
    {

    }
}


/// Wire type `Pricing`.
#[derive(Debug, Clone, PartialEq)]
pub struct Pricing {
    pub base_rate_usd_per_hour: Money,
    pub gpu_multiplier: Money,
    pub effective_rate: Money,
}

impl Pricing {
    /// This value's fields in wire order.
    pub open spec fn fieldsv(self) -> Seq<(Seq<char>, JsonV)> {
        seq![
            ("base_rate_usd_per_hour"@, money_jsonv(self.base_rate_usd_per_hour)),
            ("gpu_multiplier"@, money_jsonv(self.gpu_multiplier)),
            ("effective_rate"@, money_jsonv(self.effective_rate)),
        ]
    }

    /// The wire form: one object with the fields in order.
    pub open spec fn jsonv(self) -> JsonV {
        JsonV::Obj(self.fieldsv())
    }

    /// Whether a JSON value has this type's wire shape.
    pub open spec fn is_shape(v: JsonV) -> bool {
        &&& v matches JsonV::Obj(fs)
        &&& fs.len() == 3
        &&& fs[0].0 == "base_rate_usd_per_hour"@
        &&& is_money_shape(fs[0].1)
        &&& fs[1].0 == "gpu_multiplier"@
        &&& is_money_shape(fs[1].1)
        &&& fs[2].0 == "effective_rate"@
        &&& is_money_shape(fs[2].1)
    }

    /// Reads a value back; accepts exactly this type's wire shape.
    pub fn from_json(j: &Json) -> (r: Option<Self>)
        ensures
            match r {
                Some(p) => j@ == p.jsonv(),
                None => !Self::is_shape(j@),
            },
    {
        let fields = match j {
            Json::Obj(fsx) => fsx,
            _ => {
                return None;
            },
        };
        proof {
            lemma_fields_view(fields@);
        }
        if fields.len() != 3 {
            return None;
        }
        if !key_is(&fields[0], "base_rate_usd_per_hour") {
            return None;
        }
        if !key_is(&fields[1], "gpu_multiplier") {
            return None;
        }
        if !key_is(&fields[2], "effective_rate") {
            return None;
        }
        let base_rate_usd_per_hour = match money_from_json(&fields[0].1) {
            Some(mv) => mv,
            None => {
                return None;
            },
        };
        let gpu_multiplier = match money_from_json(&fields[1].1) {
            Some(mv) => mv,
            None => {
                return None;
            },
        };
        let effective_rate = match money_from_json(&fields[2].1) {
            Some(mv) => mv,
            None => {
                return None;
            },
        };
        let p = Pricing { base_rate_usd_per_hour, gpu_multiplier, effective_rate };
        proof {
            assert(fields_view(fields@) =~= p.fieldsv());
        }
        Some(p)
    }

    /// Builds the wire form: one object with the fields in order.
    pub fn to_json(&self) -> (j: Json)
        ensures
            j@ == self.jsonv(),
    {
        let mut fs: Vec<(String, Json)> = Vec::new();
        proof {
            assert(fields_view(fs@) == Seq::<(Seq<char>, JsonV)>::empty());
        }
        push_field(&mut fs, "base_rate_usd_per_hour", money_to_json(&self.base_rate_usd_per_hour));
        push_field(&mut fs, "gpu_multiplier", money_to_json(&self.gpu_multiplier));
        push_field(&mut fs, "effective_rate", money_to_json(&self.effective_rate));
        proof {
            assert(fields_view(fs@) =~= self.fieldsv());
        }
        Json::Obj(fs)
    }

    /// Every value's wire form has the shape.
    pub proof fn lemma_shape(p: Self)
        ensures
            Self::is_shape(p.jsonv()),
    {
    lemma_money_jsonv_shape(p.base_rate_usd_per_hour);
    lemma_money_jsonv_shape(p.gpu_multiplier);
    lemma_money_jsonv_shape(p.effective_rate);
    }
}


/// Wire type `TaskResult`.
#[derive(Debug, Clone, PartialEq)]
pub struct TaskResult {
    pub output_url: String,
    pub output_hash: String,
    pub execution_time_sec: u32,
    pub gpu_time_sec: u32,
}

impl TaskResult {
    /// This value's fields in wire order.
    pub open spec fn fieldsv(self) -> Seq<(Seq<char>, JsonV)> {
        seq![
            ("output_url"@, JsonV::Str(self.output_url@)),
            ("output_hash"@, JsonV::Str(self.output_hash@)),
            ("execution_time_sec"@, JsonV::UInt(self.execution_time_sec as u64)),
            ("gpu_time_sec"@, JsonV::UInt(self.gpu_time_sec as u64)),
        ]
    }

    /// The wire form: one object with the fields in order.
    pub open spec fn jsonv(self) -> JsonV {
        JsonV::Obj(self.fieldsv())
    }

    /// Whether a JSON value has this type's wire shape.
    pub open spec fn is_shape(v: JsonV) -> bool {
        &&& v matches JsonV::Obj(fs)
        &&& fs.len() == 4
        &&& fs[0].0 == "output_url"@
        &&& fs[0].1 is Str
        &&& fs[1].0 == "output_hash"@
        &&& fs[1].1 is Str
        &&& fs[2].0 == "execution_time_sec"@
        &&& (fs[2].1 matches JsonV::UInt(nn) && nn <= u32::MAX)
        &&& fs[3].0 == "gpu_time_sec"@
        &&& (fs[3].1 matches JsonV::UInt(nn) && nn <= u32::MAX)
    }

    /// Reads a value back; accepts exactly this type's wire shape.
    pub fn from_json(j: &Json) -> (r: Option<Self>)
        ensures
            match r {
                Some(p) => j@ == p.jsonv(),
                None => !Self::is_shape(j@),
            },
    {
        let fields = match j {
            Json::Obj(fsx) => fsx,
            _ => {
                return None;
            },
        };
        proof {
            lemma_fields_view(fields@);
        }
        if fields.len() != 4 {
            return None;
        }
        if !key_is(&fields[0], "output_url") {
            return None;
        }
        if !key_is(&fields[1], "output_hash") {
            return None;
        }
        if !key_is(&fields[2], "execution_time_sec") {
            return None;
        }
        if !key_is(&fields[3], "gpu_time_sec") {
            return None;
        }
        let output_url = match &fields[0].1 {
            Json::Str(sv) => sv.clone(),
            _ => {
                return None;
            },
        };
        let output_hash = match &fields[1].1 {
            Json::Str(sv) => sv.clone(),
            _ => {
                return None;
            },
        };
        let execution_time_sec = match &fields[2].1 {
            Json::UInt(nv) => {
                if *nv > u32::MAX as u64 {
                    return None;
                }
                *nv as u32
            },
            _ => {
                return None;
            },
        };
        let gpu_time_sec = match &fields[3].1 {
            Json::UInt(nv) => {
                if *nv > u32::MAX as u64 {
                    return None;
                }
                *nv as u32
            },
            _ => {
                return None;
            },
        };
        let p = TaskResult { output_url, output_hash, execution_time_sec, gpu_time_sec };
        proof {
            assert(fields_view(fields@) =~= p.fieldsv());
        }
        Some(p)
    }

    /// Builds the wire form: one object with the fields in order.
    pub fn to_json(&self) -> (j: Json)
        ensures
            j@ == self.jsonv(),
    {
        let mut fs: Vec<(String, Json)> = Vec::new();
        proof {
            assert(fields_view(fs@) == Seq::<(Seq<char>, JsonV)>::empty());
        }
        push_field(&mut fs, "output_url", Json::Str(self.output_url.clone()));
        push_field(&mut fs, "output_hash", Json::Str(self.output_hash.clone()));
        push_field(&mut fs, "execution_time_sec", Json::UInt(self.execution_time_sec as u64));
        push_field(&mut fs, "gpu_time_sec", Json::UInt(self.gpu_time_sec as u64));
        proof {
            assert(fields_view(fs@) =~= self.fieldsv());
        }
        Json::Obj(fs)
    }

    /// Every value's wire form has the shape.
    pub proof fn lemma_shape(p: Self)
        ensures
            Self::is_shape(p.jsonv()),
    {

    }
}


/// Wire type `ProofOfWork`.
#[derive(Debug, Clone, PartialEq)]
pub struct ProofOfWork {
    pub method: String,
    pub challenge_id: String,
    pub response: Vec<u8>,
    pub gpu_signature: String,
}

impl ProofOfWork {
    /// This value's fields in wire order.
    pub open spec fn fieldsv(self) -> Seq<(Seq<char>, JsonV)> {
        seq![
            ("method"@, JsonV::Str(self.method@)),
            ("challenge_id"@, JsonV::Str(self.challenge_id@)),
            ("response"@, JsonV::Arr(bytes_jsonv(self.response@))),
            ("gpu_signature"@, JsonV::Str(self.gpu_signature@)),
        ]
    }

    /// The wire form: one object with the fields in order.
    pub open spec fn jsonv(self) -> JsonV {
        JsonV::Obj(self.fieldsv())
    }

    /// Whether a JSON value has this type's wire shape.
    pub open spec fn is_shape(v: JsonV) -> bool {
        &&& v matches JsonV::Obj(fs)
        &&& fs.len() == 4
        &&& fs[0].0 == "method"@
        &&& fs[0].1 is Str
        &&& fs[1].0 == "challenge_id"@
        &&& fs[1].1 is Str
        &&& fs[2].0 == "response"@
        &&& is_bytes_shape(fs[2].1)
        &&& fs[3].0 == "gpu_signature"@
        &&& fs[3].1 is Str
    }

    /// Reads a value back; accepts exactly this type's wire shape.
    pub fn from_json(j: &Json) -> (r: Option<Self>)
        ensures
            match r {
                Some(p) => j@ == p.jsonv(),
                None => !Self::is_shape(j@),
            },
    {
        let fields = match j {
            Json::Obj(fsx) => fsx,
            _ => {
                return None;
            },
        };
        proof {
            lemma_fields_view(fields@);
        }
        if fields.len() != 4 {
            return None;
        }
        if !key_is(&fields[0], "method") {
            return None;
        }
        if !key_is(&fields[1], "challenge_id") {
            return None;
        }
        if !key_is(&fields[2], "response") {
            return None;
        }
        if !key_is(&fields[3], "gpu_signature") {
            return None;
        }
        let method = match &fields[0].1 {
            Json::Str(sv) => sv.clone(),
            _ => {
                return None;
            },
        };
        let challenge_id = match &fields[1].1 {
            Json::Str(sv) => sv.clone(),
            _ => {
                return None;
            },
        };
        let response = match bytes_from_json(&fields[2].1) {
            Some(vv) => vv,
            None => {
                return None;
            },
        };
        let gpu_signature = match &fields[3].1 {
            Json::Str(sv) => sv.clone(),
            _ => {
                return None;
            },
        };
        let p = ProofOfWork { method, challenge_id, response, gpu_signature };
        proof {
            assert(fields_view(fields@) =~= p.fieldsv());
        }
        Some(p)
    }

    /// Builds the wire form: one object with the fields in order.
    pub fn to_json(&self) -> (j: Json)
        ensures
            j@ == self.jsonv(),
    {
        let mut fs: Vec<(String, Json)> = Vec::new();
        proof {
            assert(fields_view(fs@) == Seq::<(Seq<char>, JsonV)>::empty());
        }
        push_field(&mut fs, "method", Json::Str(self.method.clone()));
        push_field(&mut fs, "challenge_id", Json::Str(self.challenge_id.clone()));
        push_field(&mut fs, "response", bytes_to_json(&self.response));
        push_field(&mut fs, "gpu_signature", Json::Str(self.gpu_signature.clone()));
        proof {
            assert(fields_view(fs@) =~= self.fieldsv());
        }
        Json::Obj(fs)
    }

    /// Every value's wire form has the shape.
    pub proof fn lemma_shape(p: Self)
        ensures
            Self::is_shape(p.jsonv()),
    {

    }
}


/// Wire type `ExecutionMetrics`.
#[derive(Debug, Clone, PartialEq)]
pub struct ExecutionMetrics {
    pub avg_gpu_utilization_permille: u32,
    pub peak_memory_bytes: u64,
    pub energy_wh: u64,
}

impl ExecutionMetrics {
    /// This value's fields in wire order.
    pub open spec fn fieldsv(self) -> Seq<(Seq<char>, JsonV)> {
        seq![
            ("avg_gpu_utilization_permille"@, JsonV::UInt(self.avg_gpu_utilization_permille as u64)),
            ("peak_memory_bytes"@, JsonV::UInt(self.peak_memory_bytes)),
            ("energy_wh"@, JsonV::UInt(self.energy_wh)),
        ]
    }

    /// The wire form: one object with the fields in order.
    pub open spec fn jsonv(self) -> JsonV {
        JsonV::Obj(self.fieldsv())
    }

    /// Whether a JSON value has this type's wire shape.
    pub open spec fn is_shape(v: JsonV) -> bool {
        &&& v matches JsonV::Obj(fs)
        &&& fs.len() == 3
        &&& fs[0].0 == "avg_gpu_utilization_permille"@
        &&& (fs[0].1 matches JsonV::UInt(nn) && nn <= u32::MAX)
        &&& fs[1].0 == "peak_memory_bytes"@
        &&& fs[1].1 is UInt
        &&& fs[2].0 == "energy_wh"@
        &&& fs[2].1 is UInt
    }

    /// Reads a value back; accepts exactly this type's wire shape.
    pub fn from_json(j: &Json) -> (r: Option<Self>)
        ensures
            match r {
                Some(p) => j@ == p.jsonv(),
                None => !Self::is_shape(j@),
            },
    {
        let fields = match j {
            Json::Obj(fsx) => fsx,
            _ => {
                return None;
            },
        };
        proof {
            lemma_fields_view(fields@);
        }
        if fields.len() != 3 {
            return None;
        }
        if !key_is(&fields[0], "avg_gpu_utilization_permille") {
            return None;
        }
        if !key_is(&fields[1], "peak_memory_bytes") {
            return None;
        }
        if !key_is(&fields[2], "energy_wh") {
            return None;
        }
        let avg_gpu_utilization_permille = match &fields[0].1 {
            Json::UInt(nv) => {
                if *nv > u32::MAX as u64 {
                    return None;
                }
                *nv as u32
            },
            _ => {
                return None;
            },
        };
        let peak_memory_bytes = match &fields[1].1 {
            Json::UInt(nv) => *nv,
            _ => {
                return None;
            },
        };
        let energy_wh = match &fields[2].1 {
            Json::UInt(nv) => *nv,
            _ => {
                return None;
            },
        };
        let p = ExecutionMetrics { avg_gpu_utilization_permille, peak_memory_bytes, energy_wh };
        proof {
            assert(fields_view(fields@) =~= p.fieldsv());
        }
        Some(p)
    }

    /// Builds the wire form: one object with the fields in order.
    pub fn to_json(&self) -> (j: Json)
        ensures
            j@ == self.jsonv(),
    {
        let mut fs: Vec<(String, Json)> = Vec::new();
        proof {
            assert(fields_view(fs@) == Seq::<(Seq<char>, JsonV)>::empty());
        }
        push_field(&mut fs, "avg_gpu_utilization_permille", Json::UInt(self.avg_gpu_utilization_permille as u64));
        push_field(&mut fs, "peak_memory_bytes", Json::UInt(self.peak_memory_bytes));
        push_field(&mut fs, "energy_wh", Json::UInt(self.energy_wh));
        proof {
            assert(fields_view(fs@) =~= self.fieldsv());
        }
        Json::Obj(fs)
    }

    /// Every value's wire form has the shape.
    pub proof fn lemma_shape(p: Self)
        ensures
            Self::is_shape(p.jsonv()),
    {

    }
}


/// Wire type `GPUStatus`.
#[derive(Debug, Clone, PartialEq)]
pub struct GPUStatus {
    pub index: u32,
    pub utilization_permille: u32,
    pub memory_used_bytes: u64,
    pub memory_total_bytes: u64,
    pub temperature_deci_c: u32,
    pub power_mw: u32,
    pub fan_speed_permille: u32,
}

impl GPUStatus {
    /// This value's fields in wire order.
    pub open spec fn fieldsv(self) -> Seq<(Seq<char>, JsonV)> {
        seq![
            ("index"@, JsonV::UInt(self.index as u64)),
            ("utilization_permille"@, JsonV::UInt(self.utilization_permille as u64)),
            ("memory_used_bytes"@, JsonV::UInt(self.memory_used_bytes)),
            ("memory_total_bytes"@, JsonV::UInt(self.memory_total_bytes)),
            ("temperature_deci_c"@, JsonV::UInt(self.temperature_deci_c as u64)),
            ("power_mw"@, JsonV::UInt(self.power_mw as u64)),
            ("fan_speed_permille"@, JsonV::UInt(self.fan_speed_permille as u64)),
        ]
    }

    /// The wire form: one object with the fields in order.
    pub open spec fn jsonv(self) -> JsonV {
        JsonV::Obj(self.fieldsv())
    }

    /// Whether a JSON value has this type's wire shape.
    pub open spec fn is_shape(v: JsonV) -> bool {
        &&& v matches JsonV::Obj(fs)
        &&& fs.len() == 7
        &&& fs[0].0 == "index"@
        &&& (fs[0].1 matches JsonV::UInt(nn) && nn <= u32::MAX)
        &&& fs[1].0 == "utilization_permille"@
        &&& (fs[1].1 matches JsonV::UInt(nn) && nn <= u32::MAX)
        &&& fs[2].0 == "memory_used_bytes"@
        &&& fs[2].1 is UInt
        &&& fs[3].0 == "memory_total_bytes"@
        &&& fs[3].1 is UInt
        &&& fs[4].0 == "temperature_deci_c"@
        &&& (fs[4].1 matches JsonV::UInt(nn) && nn <= u32::MAX)
        &&& fs[5].0 == "power_mw"@
        &&& (fs[5].1 matches JsonV::UInt(nn) && nn <= u32::MAX)
        &&& fs[6].0 == "fan_speed_permille"@
        &&& (fs[6].1 matches JsonV::UInt(nn) && nn <= u32::MAX)
    }

    /// Reads a value back; accepts exactly this type's wire shape.
    pub fn from_json(j: &Json) -> (r: Option<Self>)
        ensures
            match r {
                Some(p) => j@ == p.jsonv(),
                None => !Self::is_shape(j@),
            },
    {
        let fields = match j {
            Json::Obj(fsx) => fsx,
            _ => {
                return None;
            },
        };
        proof {
            lemma_fields_view(fields@);
        }
        if fields.len() != 7 {
            return None;
        }
        if !key_is(&fields[0], "index") {
            return None;
        }
        if !key_is(&fields[1], "utilization_permille") {
            return None;
        }
        if !key_is(&fields[2], "memory_used_bytes") {
            return None;
        }
        if !key_is(&fields[3], "memory_total_bytes") {
            return None;
        }
        if !key_is(&fields[4], "temperature_deci_c") {
            return None;
        }
        if !key_is(&fields[5], "power_mw") {
            return None;
        }
        if !key_is(&fields[6], "fan_speed_permille") {
            return None;
        }
        let index = match &fields[0].1 {
            Json::UInt(nv) => {
                if *nv > u32::MAX as u64 {
                    return None;
                }
                *nv as u32
            },
            _ => {
                return None;
            },
        };
        let utilization_permille = match &fields[1].1 {
            Json::UInt(nv) => {
                if *nv > u32::MAX as u64 {
                    return None;
                }
                *nv as u32
            },
            _ => {
                return None;
            },
        };
        let memory_used_bytes = match &fields[2].1 {
            Json::UInt(nv) => *nv,
            _ => {
                return None;
            },
        };
        let memory_total_bytes = match &fields[3].1 {
            Json::UInt(nv) => *nv,
            _ => {
                return None;
            },
        };
        let temperature_deci_c = match &fields[4].1 {
            Json::UInt(nv) => {
                if *nv > u32::MAX as u64 {
                    return None;
                }
                *nv as u32
            },
            _ => {
                return None;
            },
        };
        let power_mw = match &fields[5].1 {
            Json::UInt(nv) => {
                if *nv > u32::MAX as u64 {
                    return None;
                }
                *nv as u32
            },
            _ => {
                return None;
            },
        };
        let fan_speed_permille = match &fields[6].1 {
            Json::UInt(nv) => {
                if *nv > u32::MAX as u64 {
                    return None;
                }
                *nv as u32
            },
            _ => {
                return None;
            },
        };
        let p = GPUStatus { index, utilization_permille, memory_used_bytes, memory_total_bytes, temperature_deci_c, power_mw, fan_speed_permille };
        proof {
            assert(fields_view(fields@) =~= p.fieldsv());
        }
        Some(p)
    }

    /// Builds the wire form: one object with the fields in order.
    pub fn to_json(&self) -> (j: Json)
        ensures
            j@ == self.jsonv(),
    {
        let mut fs: Vec<(String, Json)> = Vec::new();
        proof {
            assert(fields_view(fs@) == Seq::<(Seq<char>, JsonV)>::empty());
        }
        push_field(&mut fs, "index", Json::UInt(self.index as u64));
        push_field(&mut fs, "utilization_permille", Json::UInt(self.utilization_permille as u64));
        push_field(&mut fs, "memory_used_bytes", Json::UInt(self.memory_used_bytes));
        push_field(&mut fs, "memory_total_bytes", Json::UInt(self.memory_total_bytes));
        push_field(&mut fs, "temperature_deci_c", Json::UInt(self.temperature_deci_c as u64));
        push_field(&mut fs, "power_mw", Json::UInt(self.power_mw as u64));
        push_field(&mut fs, "fan_speed_permille", Json::UInt(self.fan_speed_permille as u64));
        proof {
            assert(fields_view(fs@) =~= self.fieldsv());
        }
        Json::Obj(fs)
    }

    /// Every value's wire form has the shape.
    pub proof fn lemma_shape(p: Self)
        ensures
            Self::is_shape(p.jsonv()),
    {

    }
    /// The wire forms of a sequence of values.
    pub open spec fn list_jsonv(s: Seq<GPUStatus>) -> Seq<JsonV> {
        Seq::new(s.len(), |i: int| s[i].jsonv())
    }

    /// Whether a JSON value is an array of values of this shape.
    pub open spec fn arr_shape(v: JsonV) -> bool {
        v matches JsonV::Arr(aa) && (forall|q: int|
            0 <= q < aa.len() ==> GPUStatus::is_shape(#[trigger] aa[q]))
    }

    /// An array with one out-of-shape element is not in shape.
    proof fn lemma_not_arr_shape(v: JsonV, i: int)
        requires
            v is Arr,
            0 <= i < v->Arr_0.len(),
            !GPUStatus::is_shape(v->Arr_0[i]),
        ensures
            !GPUStatus::arr_shape(v),
    {
        if GPUStatus::arr_shape(v) {
            assert(GPUStatus::is_shape(v->Arr_0[i]));
        }
    }

    /// Builds a wire array from a vector of values.
    #[verifier::loop_isolation(false)]
    pub fn vec_to_json(v: &Vec<GPUStatus>) -> (j: Json)
        ensures
            j@ == JsonV::Arr(GPUStatus::list_jsonv(v@)),
    {
        let mut items: Vec<Json> = Vec::new();
        let m = v.len();
        for i in 0..m
            invariant
                m == v@.len(),
                jsons_view(items@) == GPUStatus::list_jsonv(v@).take(i as int),
        {
            let jx = v[i].to_json();
            proof {
                lemma_jsons_view_push(items@, jx);
                assert(GPUStatus::list_jsonv(v@).take(i + 1) =~= GPUStatus::list_jsonv(v@).take(
                    i as int,
                ).push(GPUStatus::list_jsonv(v@)[i as int]));
            }
            items.push(jx);
        }
        proof {
            assert(GPUStatus::list_jsonv(v@).take(m as int) =~= GPUStatus::list_jsonv(v@));
        }
        Json::Arr(items)
    }

    /// Reads a vector of values back from a wire array.
    #[verifier::loop_isolation(false)]
    pub fn vec_from_json(j: &Json) -> (r: Option<Vec<GPUStatus>>)
        ensures
            match r {
                Some(v) => j@ == JsonV::Arr(GPUStatus::list_jsonv(v@)),
                None => !GPUStatus::arr_shape(j@),
            },
    {
        let items = match j {
            Json::Arr(it) => it,
            _ => {
                return None;
            },
        };
        proof {
            lemma_jsons_view(items@);
        }
        let mut out_vec: Vec<GPUStatus> = Vec::new();
        let m = items.len();
        for i in 0..m
            invariant
                m == items@.len(),
                j@ == JsonV::Arr(jsons_view(items@)),
                out_vec@.len() == i,
                GPUStatus::list_jsonv(out_vec@) == jsons_view(items@).take(i as int),
        {
            let x = match GPUStatus::from_json(&items[i]) {
                Some(x) => x,
                None => {
                    proof {
                        assert(j@->Arr_0 == jsons_view(items@));
                        GPUStatus::lemma_not_arr_shape(j@, i as int);
                    }
                    return None;
                },
            };
            out_vec.push(x);
            proof {
                assert(GPUStatus::list_jsonv(out_vec@) =~= jsons_view(items@).take(i + 1));
            }
        }
        proof {
            assert(jsons_view(items@).take(m as int) =~= jsons_view(items@));
            assert(out_vec@.len() == m);
            assert(j@ == JsonV::Arr(jsons_view(items@)));
        }
        Some(out_vec)
    }

}


/// Wire type `TaskMetrics`.
#[derive(Debug, Clone, PartialEq)]
pub struct TaskMetrics {
    pub gpu_utilization_permille: u32,
    pub memory_used_bytes: u64,
    pub throughput_tokens_per_sec: Option<u32>,
}

impl TaskMetrics {
    /// This value's fields in wire order.
    pub open spec fn fieldsv(self) -> Seq<(Seq<char>, JsonV)> {
        seq![
            ("gpu_utilization_permille"@, JsonV::UInt(self.gpu_utilization_permille as u64)),
            ("memory_used_bytes"@, JsonV::UInt(self.memory_used_bytes)),
            ("throughput_tokens_per_sec"@, opt_uint_jsonv(opt_u32_widen(self.throughput_tokens_per_sec))),
        ]
    }

    /// The wire form: one object with the fields in order.
    pub open spec fn jsonv(self) -> JsonV {
        JsonV::Obj(self.fieldsv())
    }

    /// Whether a JSON value has this type's wire shape.
    pub open spec fn is_shape(v: JsonV) -> bool {
        &&& v matches JsonV::Obj(fs)
        &&& fs.len() == 3
        &&& fs[0].0 == "gpu_utilization_permille"@
        &&& (fs[0].1 matches JsonV::UInt(nn) && nn <= u32::MAX)
        &&& fs[1].0 == "memory_used_bytes"@
        &&& fs[1].1 is UInt
        &&& fs[2].0 == "throughput_tokens_per_sec"@
        &&& (fs[2].1 is Null || (fs[2].1 matches JsonV::UInt(nn) && nn <= u32::MAX))
    }

    /// Reads a value back; accepts exactly this type's wire shape.
    pub fn from_json(j: &Json) -> (r: Option<Self>)
        ensures
            match r {
                Some(p) => j@ == p.jsonv(),
                None => !Self::is_shape(j@),
            },
    {
        let fields = match j {
            Json::Obj(fsx) => fsx,
            _ => {
                return None;
            },
        };
        proof {
            lemma_fields_view(fields@);
        }
        if fields.len() != 3 {
            return None;
        }
        if !key_is(&fields[0], "gpu_utilization_permille") {
            return None;
        }
        if !key_is(&fields[1], "memory_used_bytes") {
            return None;
        }
        if !key_is(&fields[2], "throughput_tokens_per_sec") {
            return None;
        }
        let gpu_utilization_permille = match &fields[0].1 {
            Json::UInt(nv) => {
                if *nv > u32::MAX as u64 {
                    return None;
                }
                *nv as u32
            },
            _ => {
                return None;
            },
        };
        let memory_used_bytes = match &fields[1].1 {
            Json::UInt(nv) => *nv,
            _ => {
                return None;
            },
        };
        let throughput_tokens_per_sec = match opt_u32_from_json(&fields[2].1) {
            Some(ov) => ov,
            None => {
                return None;
            },
        };
        let p = TaskMetrics { gpu_utilization_permille, memory_used_bytes, throughput_tokens_per_sec };
        proof {
            assert(fields_view(fields@) =~= p.fieldsv());
        }
        Some(p)
    }

    /// Builds the wire form: one object with the fields in order.
    pub fn to_json(&self) -> (j: Json)
        ensures
            j@ == self.jsonv(),
    {
        let mut fs: Vec<(String, Json)> = Vec::new();
        proof {
            assert(fields_view(fs@) == Seq::<(Seq<char>, JsonV)>::empty());
        }
        push_field(&mut fs, "gpu_utilization_permille", Json::UInt(self.gpu_utilization_permille as u64));
        push_field(&mut fs, "memory_used_bytes", Json::UInt(self.memory_used_bytes));
        push_field(&mut fs, "throughput_tokens_per_sec", opt_u32_to_json(&self.throughput_tokens_per_sec));
        proof {
            assert(fields_view(fs@) =~= self.fieldsv());
        }
        Json::Obj(fs)
    }

    /// Every value's wire form has the shape.
    pub proof fn lemma_shape(p: Self)
        ensures
            Self::is_shape(p.jsonv()),
    {

    }
}


/// Wire type `TaskErrorInfo`.
#[derive(Debug, Clone, PartialEq)]
pub struct TaskErrorInfo {
    pub code: String,
    pub message: String,
    pub details: String,
}

impl TaskErrorInfo {
    /// This value's fields in wire order.
    pub open spec fn fieldsv(self) -> Seq<(Seq<char>, JsonV)> {
        seq![
            ("code"@, JsonV::Str(self.code@)),
            ("message"@, JsonV::Str(self.message@)),
            ("details"@, JsonV::Str(self.details@)),
        ]
    }

    /// The wire form: one object with the fields in order.
    pub open spec fn jsonv(self) -> JsonV {
        JsonV::Obj(self.fieldsv())
    }

    /// Whether a JSON value has this type's wire shape.
    pub open spec fn is_shape(v: JsonV) -> bool {
        &&& v matches JsonV::Obj(fs)
        &&& fs.len() == 3
        &&& fs[0].0 == "code"@
        &&& fs[0].1 is Str
        &&& fs[1].0 == "message"@
        &&& fs[1].1 is Str
        &&& fs[2].0 == "details"@
        &&& fs[2].1 is Str
    }

    /// Reads a value back; accepts exactly this type's wire shape.
    pub fn from_json(j: &Json) -> (r: Option<Self>)
        ensures
            match r {
                Some(p) => j@ == p.jsonv(),
                None => !Self::is_shape(j@),
            },
    {
        let fields = match j {
            Json::Obj(fsx) => fsx,
            _ => {
                return None;
            },
        };
        proof {
            lemma_fields_view(fields@);
        }
        if fields.len() != 3 {
            return None;
        }
        if !key_is(&fields[0], "code") {
            return None;
        }
        if !key_is(&fields[1], "message") {
            return None;
        }
        if !key_is(&fields[2], "details") {
            return None;
        }
        let code = match &fields[0].1 {
            Json::Str(sv) => sv.clone(),
            _ => {
                return None;
            },
        };
        let message = match &fields[1].1 {
            Json::Str(sv) => sv.clone(),
            _ => {
                return None;
            },
        };
        let details = match &fields[2].1 {
            Json::Str(sv) => sv.clone(),
            _ => {
                return None;
            },
        };
        let p = TaskErrorInfo { code, message, details };
        proof {
            assert(fields_view(fields@) =~= p.fieldsv());
        }
        Some(p)
    }

    /// Builds the wire form: one object with the fields in order.
    pub fn to_json(&self) -> (j: Json)
        ensures
            j@ == self.jsonv(),
    {
        let mut fs: Vec<(String, Json)> = Vec::new();
        proof {
            assert(fields_view(fs@) == Seq::<(Seq<char>, JsonV)>::empty());
        }
        push_field(&mut fs, "code", Json::Str(self.code.clone()));
        push_field(&mut fs, "message", Json::Str(self.message.clone()));
        push_field(&mut fs, "details", Json::Str(self.details.clone()));
        proof {
            assert(fields_view(fs@) =~= self.fieldsv());
        }
        Json::Obj(fs)
    }

    /// Every value's wire form has the shape.
    pub proof fn lemma_shape(p: Self)
        ensures
            Self::is_shape(p.jsonv()),
    {

    }
}


/// Wire type `TimeRange`.
#[derive(Debug, Clone, PartialEq)]
pub struct TimeRange {
    pub start: u64,
    pub end: u64,
}

impl TimeRange {
    /// This value's fields in wire order.
    pub open spec fn fieldsv(self) -> Seq<(Seq<char>, JsonV)> {
        seq![
            ("start"@, JsonV::UInt(self.start)),
            ("end"@, JsonV::UInt(self.end)),
        ]
    }

    /// The wire form: one object with the fields in order.
    pub open spec fn jsonv(self) -> JsonV {
        JsonV::Obj(self.fieldsv())
    }

    /// Whether a JSON value has this type's wire shape.
    pub open spec fn is_shape(v: JsonV) -> bool {
        &&& v matches JsonV::Obj(fs)
        &&& fs.len() == 2
        &&& fs[0].0 == "start"@
        &&& fs[0].1 is UInt
        &&& fs[1].0 == "end"@
        &&& fs[1].1 is UInt
    }

    /// Reads a value back; accepts exactly this type's wire shape.
    pub fn from_json(j: &Json) -> (r: Option<Self>)
        ensures
            match r {
                Some(p) => j@ == p.jsonv(),
                None => !Self::is_shape(j@),
            },
    {
        let fields = match j {
            Json::Obj(fsx) => fsx,
            _ => {
                return None;
            },
        };
        proof {
            lemma_fields_view(fields@);
        }
        if fields.len() != 2 {
            return None;
        }
        if !key_is(&fields[0], "start") {
            return None;
        }
        if !key_is(&fields[1], "end") {
            return None;
        }
        let start = match &fields[0].1 {
            Json::UInt(nv) => *nv,
            _ => {
                return None;
            },
        };
        let end = match &fields[1].1 {
            Json::UInt(nv) => *nv,
            _ => {
                return None;
            },
        };
        let p = TimeRange { start, end };
        proof {
            assert(fields_view(fields@) =~= p.fieldsv());
        }
        Some(p)
    }

    /// Builds the wire form: one object with the fields in order.
    pub fn to_json(&self) -> (j: Json)
        ensures
            j@ == self.jsonv(),
    {
        let mut fs: Vec<(String, Json)> = Vec::new();
        proof {
            assert(fields_view(fs@) == Seq::<(Seq<char>, JsonV)>::empty());
        }
        push_field(&mut fs, "start", Json::UInt(self.start));
        push_field(&mut fs, "end", Json::UInt(self.end));
        proof {
            assert(fields_view(fs@) =~= self.fieldsv());
        }
        Json::Obj(fs)
    }

    /// Every value's wire form has the shape.
    pub proof fn lemma_shape(p: Self)
        ensures
            Self::is_shape(p.jsonv()),
    {

    }
}


/// Wire type `AggregatedMetrics`.
#[derive(Debug, Clone, PartialEq)]
pub struct AggregatedMetrics {
    pub tasks_completed: u32,
    pub tasks_failed: u32,
    pub total_gpu_seconds: u64,
    pub avg_gpu_utilization_permille: u32,
    pub total_energy_wh: u64,
    pub earnings_usd: Money,
}

impl AggregatedMetrics {
    /// This value's fields in wire order.
    pub open spec fn fieldsv(self) -> Seq<(Seq<char>, JsonV)> {
        seq![
            ("tasks_completed"@, JsonV::UInt(self.tasks_completed as u64)),
            ("tasks_failed"@, JsonV::UInt(self.tasks_failed as u64)),
            ("total_gpu_seconds"@, JsonV::UInt(self.total_gpu_seconds)),
            ("avg_gpu_utilization_permille"@, JsonV::UInt(self.avg_gpu_utilization_permille as u64)),
            ("total_energy_wh"@, JsonV::UInt(self.total_energy_wh)),
            ("earnings_usd"@, money_jsonv(self.earnings_usd)),
        ]
    }

    /// The wire form: one object with the fields in order.
    pub open spec fn jsonv(self) -> JsonV {
        JsonV::Obj(self.fieldsv())
    }

    /// Whether a JSON value has this type's wire shape.
    pub open spec fn is_shape(v: JsonV) -> bool {
        &&& v matches JsonV::Obj(fs)
        &&& fs.len() == 6
        &&& fs[0].0 == "tasks_completed"@
        &&& (fs[0].1 matches JsonV::UInt(nn) && nn <= u32::MAX)
        &&& fs[1].0 == "tasks_failed"@
        &&& (fs[1].1 matches JsonV::UInt(nn) && nn <= u32::MAX)
        &&& fs[2].0 == "total_gpu_seconds"@
        &&& fs[2].1 is UInt
        &&& fs[3].0 == "avg_gpu_utilization_permille"@
        &&& (fs[3].1 matches JsonV::UInt(nn) && nn <= u32::MAX)
        &&& fs[4].0 == "total_energy_wh"@
        &&& fs[4].1 is UInt
        &&& fs[5].0 == "earnings_usd"@
        &&& is_money_shape(fs[5].1)
    }

    /// Reads a value back; accepts exactly this type's wire shape.
    pub fn from_json(j: &Json) -> (r: Option<Self>)
        ensures
            match r {
                Some(p) => j@ == p.jsonv(),
                None => !Self::is_shape(j@),
            },
    {
        let fields = match j {
            Json::Obj(fsx) => fsx,
            _ => {
                return None;
            },
        };
        proof {
            lemma_fields_view(fields@);
        }
        if fields.len() != 6 {
            return None;
        }
        if !key_is(&fields[0], "tasks_completed") {
            return None;
        }
        if !key_is(&fields[1], "tasks_failed") {
            return None;
        }
        if !key_is(&fields[2], "total_gpu_seconds") {
            return None;
        }
        if !key_is(&fields[3], "avg_gpu_utilization_permille") {
            return None;
        }
        if !key_is(&fields[4], "total_energy_wh") {
            return None;
        }
        if !key_is(&fields[5], "earnings_usd") {
            return None;
        }
        let tasks_completed = match &fields[0].1 {
            Json::UInt(nv) => {
                if *nv > u32::MAX as u64 {
                    return None;
                }
                *nv as u32
            },
            _ => {
                return None;
            },
        };
        let tasks_failed = match &fields[1].1 {
            Json::UInt(nv) => {
                if *nv > u32::MAX as u64 {
                    return None;
                }
                *nv as u32
            },
            _ => {
                return None;
            },
        };
        let total_gpu_seconds = match &fields[2].1 {
            Json::UInt(nv) => *nv,
            _ => {
                return None;
            },
        };
        let avg_gpu_utilization_permille = match &fields[3].1 {
            Json::UInt(nv) => {
                if *nv > u32::MAX as u64 {
                    return None;
                }
                *nv as u32
            },
            _ => {
                return None;
            },
        };
        let total_energy_wh = match &fields[4].1 {
            Json::UInt(nv) => *nv,
            _ => {
                return None;
            },
        };
        let earnings_usd = match money_from_json(&fields[5].1) {
            Some(mv) => mv,
            None => {
                return None;
            },
        };
        let p = AggregatedMetrics { tasks_completed, tasks_failed, total_gpu_seconds, avg_gpu_utilization_permille, total_energy_wh, earnings_usd };
        proof {
            assert(fields_view(fields@) =~= p.fieldsv());
        }
        Some(p)
    }

    /// Builds the wire form: one object with the fields in order.
    pub fn to_json(&self) -> (j: Json)
        ensures
            j@ == self.jsonv(),
    {
        let mut fs: Vec<(String, Json)> = Vec::new();
        proof {
            assert(fields_view(fs@) == Seq::<(Seq<char>, JsonV)>::empty());
        }
        push_field(&mut fs, "tasks_completed", Json::UInt(self.tasks_completed as u64));
        push_field(&mut fs, "tasks_failed", Json::UInt(self.tasks_failed as u64));
        push_field(&mut fs, "total_gpu_seconds", Json::UInt(self.total_gpu_seconds));
        push_field(&mut fs, "avg_gpu_utilization_permille", Json::UInt(self.avg_gpu_utilization_permille as u64));
        push_field(&mut fs, "total_energy_wh", Json::UInt(self.total_energy_wh));
        push_field(&mut fs, "earnings_usd", money_to_json(&self.earnings_usd));
        proof {
            assert(fields_view(fs@) =~= self.fieldsv());
        }
        Json::Obj(fs)
    }

    /// Every value's wire form has the shape.
    pub proof fn lemma_shape(p: Self)
        ensures
            Self::is_shape(p.jsonv()),
    {
    lemma_money_jsonv_shape(p.earnings_usd);
    }
}


/// Wire type `EarningsDetail`.
#[derive(Debug, Clone, PartialEq)]
pub struct EarningsDetail {
    pub gpu_seconds: u64,
    pub rate_usd_per_hour: Money,
    pub amount_usd: Money,
    pub bonus_multiplier_permille: u32,
    pub final_amount_usd: Money,
}

impl EarningsDetail {
    /// This value's fields in wire order.
    pub open spec fn fieldsv(self) -> Seq<(Seq<char>, JsonV)> {
        seq![
            ("gpu_seconds"@, JsonV::UInt(self.gpu_seconds)),
            ("rate_usd_per_hour"@, money_jsonv(self.rate_usd_per_hour)),
            ("amount_usd"@, money_jsonv(self.amount_usd)),
            ("bonus_multiplier_permille"@, JsonV::UInt(self.bonus_multiplier_permille as u64)),
            ("final_amount_usd"@, money_jsonv(self.final_amount_usd)),
        ]
    }

    /// The wire form: one object with the fields in order.
    pub open spec fn jsonv(self) -> JsonV {
        JsonV::Obj(self.fieldsv())
    }

    /// Whether a JSON value has this type's wire shape.
    pub open spec fn is_shape(v: JsonV) -> bool {
        &&& v matches JsonV::Obj(fs)
        &&& fs.len() == 5
        &&& fs[0].0 == "gpu_seconds"@
        &&& fs[0].1 is UInt
        &&& fs[1].0 == "rate_usd_per_hour"@
        &&& is_money_shape(fs[1].1)
        &&& fs[2].0 == "amount_usd"@
        &&& is_money_shape(fs[2].1)
        &&& fs[3].0 == "bonus_multiplier_permille"@
        &&& (fs[3].1 matches JsonV::UInt(nn) && nn <= u32::MAX)
        &&& fs[4].0 == "final_amount_usd"@
        &&& is_money_shape(fs[4].1)
    }

    /// Reads a value back; accepts exactly this type's wire shape.
    pub fn from_json(j: &Json) -> (r: Option<Self>)
        ensures
            match r {
                Some(p) => j@ == p.jsonv(),
                None => !Self::is_shape(j@),
            },
    {
        let fields = match j {
            Json::Obj(fsx) => fsx,
            _ => {
                return None;
            },
        };
        proof {
            lemma_fields_view(fields@);
        }
        if fields.len() != 5 {
            return None;
        }
        if !key_is(&fields[0], "gpu_seconds") {
            return None;
        }
        if !key_is(&fields[1], "rate_usd_per_hour") {
            return None;
        }
        if !key_is(&fields[2], "amount_usd") {
            return None;
        }
        if !key_is(&fields[3], "bonus_multiplier_permille") {
            return None;
        }
        if !key_is(&fields[4], "final_amount_usd") {
            return None;
        }
        let gpu_seconds = match &fields[0].1 {
            Json::UInt(nv) => *nv,
            _ => {
                return None;
            },
        };
        let rate_usd_per_hour = match money_from_json(&fields[1].1) {
            Some(mv) => mv,
            None => {
                return None;
            },
        };
        let amount_usd = match money_from_json(&fields[2].1) {
            Some(mv) => mv,
            None => {
                return None;
            },
        };
        let bonus_multiplier_permille = match &fields[3].1 {
            Json::UInt(nv) => {
                if *nv > u32::MAX as u64 {
                    return None;
                }
                *nv as u32
            },
            _ => {
                return None;
            },
        };
        let final_amount_usd = match money_from_json(&fields[4].1) {
            Some(mv) => mv,
            None => {
                return None;
            },
        };
        let p = EarningsDetail { gpu_seconds, rate_usd_per_hour, amount_usd, bonus_multiplier_permille, final_amount_usd };
        proof {
            assert(fields_view(fields@) =~= p.fieldsv());
        }
        Some(p)
    }

    /// Builds the wire form: one object with the fields in order.
    pub fn to_json(&self) -> (j: Json)
        ensures
            j@ == self.jsonv(),
    {
        let mut fs: Vec<(String, Json)> = Vec::new();
        proof {
            assert(fields_view(fs@) == Seq::<(Seq<char>, JsonV)>::empty());
        }
        push_field(&mut fs, "gpu_seconds", Json::UInt(self.gpu_seconds));
        push_field(&mut fs, "rate_usd_per_hour", money_to_json(&self.rate_usd_per_hour));
        push_field(&mut fs, "amount_usd", money_to_json(&self.amount_usd));
        push_field(&mut fs, "bonus_multiplier_permille", Json::UInt(self.bonus_multiplier_permille as u64));
        push_field(&mut fs, "final_amount_usd", money_to_json(&self.final_amount_usd));
        proof {
            assert(fields_view(fs@) =~= self.fieldsv());
        }
        Json::Obj(fs)
    }

    /// Every value's wire form has the shape.
    pub proof fn lemma_shape(p: Self)
        ensures
            Self::is_shape(p.jsonv()),
    {
    lemma_money_jsonv_shape(p.rate_usd_per_hour);
    lemma_money_jsonv_shape(p.amount_usd);
    lemma_money_jsonv_shape(p.final_amount_usd);
    }
}


/// Wire type `PayoutPeriod`.
#[derive(Debug, Clone, PartialEq)]
pub struct PayoutPeriod {
    pub start: String,
    pub end: String,
}

impl PayoutPeriod {
    /// This value's fields in wire order.
    pub open spec fn fieldsv(self) -> Seq<(Seq<char>, JsonV)> {
        seq![
            ("start"@, JsonV::Str(self.start@)),
            ("end"@, JsonV::Str(self.end@)),
        ]
    }

    /// The wire form: one object with the fields in order.
    pub open spec fn jsonv(self) -> JsonV {
        JsonV::Obj(self.fieldsv())
    }

    /// Whether a JSON value has this type's wire shape.
    pub open spec fn is_shape(v: JsonV) -> bool {
        &&& v matches JsonV::Obj(fs)
        &&& fs.len() == 2
        &&& fs[0].0 == "start"@
        &&& fs[0].1 is Str
        &&& fs[1].0 == "end"@
        &&& fs[1].1 is Str
    }

    /// Reads a value back; accepts exactly this type's wire shape.
    pub fn from_json(j: &Json) -> (r: Option<Self>)
        ensures
            match r {
                Some(p) => j@ == p.jsonv(),
                None => !Self::is_shape(j@),
            },
    {
        let fields = match j {
            Json::Obj(fsx) => fsx,
            _ => {
                return None;
            },
        };
        proof {
            lemma_fields_view(fields@);
        }
        if fields.len() != 2 {
            return None;
        }
        if !key_is(&fields[0], "start") {
            return None;
        }
        if !key_is(&fields[1], "end") {
            return None;
        }
        let start = match &fields[0].1 {
            Json::Str(sv) => sv.clone(),
            _ => {
                return None;
            },
        };
        let end = match &fields[1].1 {
            Json::Str(sv) => sv.clone(),
            _ => {
                return None;
            },
        };
        let p = PayoutPeriod { start, end };
        proof {
            assert(fields_view(fields@) =~= p.fieldsv());
        }
        Some(p)
    }

    /// Builds the wire form: one object with the fields in order.
    pub fn to_json(&self) -> (j: Json)
        ensures
            j@ == self.jsonv(),
    {
        let mut fs: Vec<(String, Json)> = Vec::new();
        proof {
            assert(fields_view(fs@) == Seq::<(Seq<char>, JsonV)>::empty());
        }
        push_field(&mut fs, "start", Json::Str(self.start.clone()));
        push_field(&mut fs, "end", Json::Str(self.end.clone()));
        proof {
            assert(fields_view(fs@) =~= self.fieldsv());
        }
        Json::Obj(fs)
    }

    /// Every value's wire form has the shape.
    pub proof fn lemma_shape(p: Self)
        ensures
            Self::is_shape(p.jsonv()),
    {

    }
}


/// Wire type `PayoutSummary`.
#[derive(Debug, Clone, PartialEq)]
pub struct PayoutSummary {
    pub total_tasks: u32,
    pub total_gpu_seconds: u64,
    pub gross_amount_usd: Money,
    pub platform_fee_usd: Money,
    pub net_amount_usd: Money,
}

impl PayoutSummary {
    /// This value's fields in wire order.
    pub open spec fn fieldsv(self) -> Seq<(Seq<char>, JsonV)> {
        seq![
            ("total_tasks"@, JsonV::UInt(self.total_tasks as u64)),
            ("total_gpu_seconds"@, JsonV::UInt(self.total_gpu_seconds)),
            ("gross_amount_usd"@, money_jsonv(self.gross_amount_usd)),
            ("platform_fee_usd"@, money_jsonv(self.platform_fee_usd)),
            ("net_amount_usd"@, money_jsonv(self.net_amount_usd)),
        ]
    }

    /// The wire form: one object with the fields in order.
    pub open spec fn jsonv(self) -> JsonV {
        JsonV::Obj(self.fieldsv())
    }

    /// Whether a JSON value has this type's wire shape.
    pub open spec fn is_shape(v: JsonV) -> bool {
        &&& v matches JsonV::Obj(fs)
        &&& fs.len() == 5
        &&& fs[0].0 == "total_tasks"@
        &&& (fs[0].1 matches JsonV::UInt(nn) && nn <= u32::MAX)
        &&& fs[1].0 == "total_gpu_seconds"@
        &&& fs[1].1 is UInt
        &&& fs[2].0 == "gross_amount_usd"@
        &&& is_money_shape(fs[2].1)
        &&& fs[3].0 == "platform_fee_usd"@
        &&& is_money_shape(fs[3].1)
        &&& fs[4].0 == "net_amount_usd"@
        &&& is_money_shape(fs[4].1)
    }

    /// Reads a value back; accepts exactly this type's wire shape.
    pub fn from_json(j: &Json) -> (r: Option<Self>)
        ensures
            match r {
                Some(p) => j@ == p.jsonv(),
                None => !Self::is_shape(j@),
            },
    {
        let fields = match j {
            Json::Obj(fsx) => fsx,
            _ => {
                return None;
            },
        };
        proof {
            lemma_fields_view(fields@);
        }
        if fields.len() != 5 {
            return None;
        }
        if !key_is(&fields[0], "total_tasks") {
            return None;
        }
        if !key_is(&fields[1], "total_gpu_seconds") {
            return None;
        }
        if !key_is(&fields[2], "gross_amount_usd") {
            return None;
        }
        if !key_is(&fields[3], "platform_fee_usd") {
            return None;
        }
        if !key_is(&fields[4], "net_amount_usd") {
            return None;
        }
        let total_tasks = match &fields[0].1 {
            Json::UInt(nv) => {
                if *nv > u32::MAX as u64 {
                    return None;
                }
                *nv as u32
            },
            _ => {
                return None;
            },
        };
        let total_gpu_seconds = match &fields[1].1 {
            Json::UInt(nv) => *nv,
            _ => {
                return None;
            },
        };
        let gross_amount_usd = match money_from_json(&fields[2].1) {
            Some(mv) => mv,
            None => {
                return None;
            },
        };
        let platform_fee_usd = match money_from_json(&fields[3].1) {
            Some(mv) => mv,
            None => {
                return None;
            },
        };
        let net_amount_usd = match money_from_json(&fields[4].1) {
            Some(mv) => mv,
            None => {
                return None;
            },
        };
        let p = PayoutSummary { total_tasks, total_gpu_seconds, gross_amount_usd, platform_fee_usd, net_amount_usd };
        proof {
            assert(fields_view(fields@) =~= p.fieldsv());
        }
        Some(p)
    }

    /// Builds the wire form: one object with the fields in order.
    pub fn to_json(&self) -> (j: Json)
        ensures
            j@ == self.jsonv(),
    {
        let mut fs: Vec<(String, Json)> = Vec::new();
        proof {
            assert(fields_view(fs@) == Seq::<(Seq<char>, JsonV)>::empty());
        }
        push_field(&mut fs, "total_tasks", Json::UInt(self.total_tasks as u64));
        push_field(&mut fs, "total_gpu_seconds", Json::UInt(self.total_gpu_seconds));
        push_field(&mut fs, "gross_amount_usd", money_to_json(&self.gross_amount_usd));
        push_field(&mut fs, "platform_fee_usd", money_to_json(&self.platform_fee_usd));
        push_field(&mut fs, "net_amount_usd", money_to_json(&self.net_amount_usd));
        proof {
            assert(fields_view(fs@) =~= self.fieldsv());
        }
        Json::Obj(fs)
    }

    /// Every value's wire form has the shape.
    pub proof fn lemma_shape(p: Self)
        ensures
            Self::is_shape(p.jsonv()),
    {
    lemma_money_jsonv_shape(p.gross_amount_usd);
    lemma_money_jsonv_shape(p.platform_fee_usd);
    lemma_money_jsonv_shape(p.net_amount_usd);
    }
}


/// Wire type `GpuSignature`.
#[derive(Debug, Clone, PartialEq)]
pub struct GpuSignature {
    pub device_uuid: String,
    pub cuda_version: Option<String>,
}

impl GpuSignature {
    /// This value's fields in wire order.
    pub open spec fn fieldsv(self) -> Seq<(Seq<char>, JsonV)> {
        seq![
            ("device_uuid"@, JsonV::Str(self.device_uuid@)),
            ("cuda_version"@, opt_str_jsonv(opt_str_view(self.cuda_version))),
        ]
    }

    /// The wire form: one object with the fields in order.
    pub open spec fn jsonv(self) -> JsonV {
        JsonV::Obj(self.fieldsv())
    }

    /// Whether a JSON value has this type's wire shape.
    pub open spec fn is_shape(v: JsonV) -> bool {
        &&& v matches JsonV::Obj(fs)
        &&& fs.len() == 2
        &&& fs[0].0 == "device_uuid"@
        &&& fs[0].1 is Str
        &&& fs[1].0 == "cuda_version"@
        &&& (fs[1].1 is Null || fs[1].1 is Str)
    }

    /// Reads a value back; accepts exactly this type's wire shape.
    pub fn from_json(j: &Json) -> (r: Option<Self>)
        ensures
            match r {
                Some(p) => j@ == p.jsonv(),
                None => !Self::is_shape(j@),
            },
    {
        let fields = match j {
            Json::Obj(fsx) => fsx,
            _ => {
                return None;
            },
        };
        proof {
            lemma_fields_view(fields@);
        }
        if fields.len() != 2 {
            return None;
        }
        if !key_is(&fields[0], "device_uuid") {
            return None;
        }
        if !key_is(&fields[1], "cuda_version") {
            return None;
        }
        let device_uuid = match &fields[0].1 {
            Json::Str(sv) => sv.clone(),
            _ => {
                return None;
            },
        };
        let cuda_version = match opt_str_from_json(&fields[1].1) {
            Some(ov) => ov,
            None => {
                return None;
            },
        };
        let p = GpuSignature { device_uuid, cuda_version };
        proof {
            assert(fields_view(fields@) =~= p.fieldsv());
        }
        Some(p)
    }

    /// Builds the wire form: one object with the fields in order.
    pub fn to_json(&self) -> (j: Json)
        ensures
            j@ == self.jsonv(),
    {
        let mut fs: Vec<(String, Json)> = Vec::new();
        proof {
            assert(fields_view(fs@) == Seq::<(Seq<char>, JsonV)>::empty());
        }
        push_field(&mut fs, "device_uuid", Json::Str(self.device_uuid.clone()));
        push_field(&mut fs, "cuda_version", opt_str_to_json(&self.cuda_version));
        proof {
            assert(fields_view(fs@) =~= self.fieldsv());
        }
        Json::Obj(fs)
    }

    /// Every value's wire form has the shape.
    pub proof fn lemma_shape(p: Self)
        ensures
            Self::is_shape(p.jsonv()),
    {

    }
}


/// Wire type `ActiveTaskInfo`.
#[derive(Debug, Clone, PartialEq)]
pub struct ActiveTaskInfo {
    pub task_id: String,
    pub progress_permille: u32,
    pub started_at: u64,
}

impl ActiveTaskInfo {
    /// This value's fields in wire order.
    pub open spec fn fieldsv(self) -> Seq<(Seq<char>, JsonV)> {
        seq![
            ("task_id"@, JsonV::Str(self.task_id@)),
            ("progress_permille"@, JsonV::UInt(self.progress_permille as u64)),
            ("started_at"@, JsonV::UInt(self.started_at)),
        ]
    }

    /// The wire form: one object with the fields in order.
    pub open spec fn jsonv(self) -> JsonV {
        JsonV::Obj(self.fieldsv())
    }

    /// Whether a JSON value has this type's wire shape.
    pub open spec fn is_shape(v: JsonV) -> bool {
        &&& v matches JsonV::Obj(fs)
        &&& fs.len() == 3
        &&& fs[0].0 == "task_id"@
        &&& fs[0].1 is Str
        &&& fs[1].0 == "progress_permille"@
        &&& (fs[1].1 matches JsonV::UInt(nn) && nn <= u32::MAX)
        &&& fs[2].0 == "started_at"@
        &&& fs[2].1 is UInt
    }

    /// Reads a value back; accepts exactly this type's wire shape.
    pub fn from_json(j: &Json) -> (r: Option<Self>)
        ensures
            match r {
                Some(p) => j@ == p.jsonv(),
                None => !Self::is_shape(j@),
            },
    {
        let fields = match j {
            Json::Obj(fsx) => fsx,
            _ => {
                return None;
            },
        };
        proof {
            lemma_fields_view(fields@);
        }
        if fields.len() != 3 {
            return None;
        }
        if !key_is(&fields[0], "task_id") {
            return None;
        }
        if !key_is(&fields[1], "progress_permille") {
            return None;
        }
        if !key_is(&fields[2], "started_at") {
            return None;
        }
        let task_id = match &fields[0].1 {
            Json::Str(sv) => sv.clone(),
            _ => {
                return None;
            },
        };
        let progress_permille = match &fields[1].1 {
            Json::UInt(nv) => {
                if *nv > u32::MAX as u64 {
                    return None;
                }
                *nv as u32
            },
            _ => {
                return None;
            },
        };
        let started_at = match &fields[2].1 {
            Json::UInt(nv) => *nv,
            _ => {
                return None;
            },
        };
        let p = ActiveTaskInfo { task_id, progress_permille, started_at };
        proof {
            assert(fields_view(fields@) =~= p.fieldsv());
        }
        Some(p)
    }

    /// Builds the wire form: one object with the fields in order.
    pub fn to_json(&self) -> (j: Json)
        ensures
            j@ == self.jsonv(),
    {
        let mut fs: Vec<(String, Json)> = Vec::new();
        proof {
            assert(fields_view(fs@) == Seq::<(Seq<char>, JsonV)>::empty());
        }
        push_field(&mut fs, "task_id", Json::Str(self.task_id.clone()));
        push_field(&mut fs, "progress_permille", Json::UInt(self.progress_permille as u64));
        push_field(&mut fs, "started_at", Json::UInt(self.started_at));
        proof {
            assert(fields_view(fs@) =~= self.fieldsv());
        }
        Json::Obj(fs)
    }

    /// Every value's wire form has the shape.
    pub proof fn lemma_shape(p: Self)
        ensures
            Self::is_shape(p.jsonv()),
    {

    }
    /// The wire forms of a sequence of values.
    pub open spec fn list_jsonv(s: Seq<ActiveTaskInfo>) -> Seq<JsonV> {
        Seq::new(s.len(), |i: int| s[i].jsonv())
    }

    /// Whether a JSON value is an array of values of this shape.
    pub open spec fn arr_shape(v: JsonV) -> bool {
        v matches JsonV::Arr(aa) && (forall|q: int|
            0 <= q < aa.len() ==> ActiveTaskInfo::is_shape(#[trigger] aa[q]))
    }

    /// An array with one out-of-shape element is not in shape.
    proof fn lemma_not_arr_shape(v: JsonV, i: int)
        requires
            v is Arr,
            0 <= i < v->Arr_0.len(),
            !ActiveTaskInfo::is_shape(v->Arr_0[i]),
        ensures
            !ActiveTaskInfo::arr_shape(v),
    {
        if ActiveTaskInfo::arr_shape(v) {
            assert(ActiveTaskInfo::is_shape(v->Arr_0[i]));
        }
    }

    /// Builds a wire array from a vector of values.
    #[verifier::loop_isolation(false)]
    pub fn vec_to_json(v: &Vec<ActiveTaskInfo>) -> (j: Json)
        ensures
            j@ == JsonV::Arr(ActiveTaskInfo::list_jsonv(v@)),
    {
        let mut items: Vec<Json> = Vec::new();
        let m = v.len();
        for i in 0..m
            invariant
                m == v@.len(),
                jsons_view(items@) == ActiveTaskInfo::list_jsonv(v@).take(i as int),
        {
            let jx = v[i].to_json();
            proof {
                lemma_jsons_view_push(items@, jx);
                assert(ActiveTaskInfo::list_jsonv(v@).take(i + 1) =~= ActiveTaskInfo::list_jsonv(v@).take(
                    i as int,
                ).push(ActiveTaskInfo::list_jsonv(v@)[i as int]));
            }
            items.push(jx);
        }
        proof {
            assert(ActiveTaskInfo::list_jsonv(v@).take(m as int) =~= ActiveTaskInfo::list_jsonv(v@));
        }
        Json::Arr(items)
    }

    /// Reads a vector of values back from a wire array.
    #[verifier::loop_isolation(false)]
    pub fn vec_from_json(j: &Json) -> (r: Option<Vec<ActiveTaskInfo>>)
        ensures
            match r {
                Some(v) => j@ == JsonV::Arr(ActiveTaskInfo::list_jsonv(v@)),
                None => !ActiveTaskInfo::arr_shape(j@),
            },
    {
        let items = match j {
            Json::Arr(it) => it,
            _ => {
                return None;
            },
        };
        proof {
            lemma_jsons_view(items@);
        }
        let mut out_vec: Vec<ActiveTaskInfo> = Vec::new();
        let m = items.len();
        for i in 0..m
            invariant
                m == items@.len(),
                j@ == JsonV::Arr(jsons_view(items@)),
                out_vec@.len() == i,
                ActiveTaskInfo::list_jsonv(out_vec@) == jsons_view(items@).take(i as int),
        {
            let x = match ActiveTaskInfo::from_json(&items[i]) {
                Some(x) => x,
                None => {
                    proof {
                        assert(j@->Arr_0 == jsons_view(items@));
                        ActiveTaskInfo::lemma_not_arr_shape(j@, i as int);
                    }
                    return None;
                },
            };
            out_vec.push(x);
            proof {
                assert(ActiveTaskInfo::list_jsonv(out_vec@) =~= jsons_view(items@).take(i + 1));
            }
        }
        proof {
            assert(jsons_view(items@).take(m as int) =~= jsons_view(items@));
            assert(out_vec@.len() == m);
            assert(j@ == JsonV::Arr(jsons_view(items@)));
        }
        Some(out_vec)
    }

}


/// Wire type `AuthChallengePayload`.
#[derive(Debug, Clone, PartialEq)]
pub struct AuthChallengePayload {
    pub challenge: String,
    pub timestamp: u64,
}

impl AuthChallengePayload {
    /// This value's fields in wire order.
    pub open spec fn fieldsv(self) -> Seq<(Seq<char>, JsonV)> {
        seq![
            ("challenge"@, JsonV::Str(self.challenge@)),
            ("timestamp"@, JsonV::UInt(self.timestamp)),
        ]
    }


    /// Whether a field list has this payload's wire shape.
    pub open spec fn fields_shape(fs: Seq<(Seq<char>, JsonV)>) -> bool {
        &&& fs.len() == 2
        &&& fs[0].0 == "challenge"@
        &&& fs[0].1 is Str
        &&& fs[1].0 == "timestamp"@
        &&& fs[1].1 is UInt
    }

    /// Reads the payload back from the tail of an object's fields.
    pub fn from_fields(fields: &Vec<(String, Json)>, start: usize) -> (r: Option<Self>)
        requires
            start <= fields@.len(),
        ensures
            match r {
                Some(p) => fields_view(fields@).skip(start as int) == p.fieldsv(),
                None => !Self::fields_shape(fields_view(fields@).skip(start as int)),
            },
    {
        proof {
            lemma_fields_view(fields@);
        }
        if fields.len() - start != 2 {
            return None;
        }
        if !key_is(&fields[start + 0], "challenge") {
            return None;
        }
        if !key_is(&fields[start + 1], "timestamp") {
            return None;
        }
        let challenge = match &fields[start + 0].1 {
            Json::Str(sv) => sv.clone(),
            _ => {
                return None;
            },
        };
        let timestamp = match &fields[start + 1].1 {
            Json::UInt(nv) => *nv,
            _ => {
                return None;
            },
        };
        let p = AuthChallengePayload { challenge, timestamp };
        proof {
            assert(fields_view(fields@).skip(start as int) =~= p.fieldsv());
        }
        Some(p)
    }

    /// Appends this payload's fields to an object under construction.
    pub fn push_json_fields(&self, fs: &mut Vec<(String, Json)>)
        ensures
            fields_view(final(fs)@) == fields_view(old(fs)@) + self.fieldsv(),
    {
        let ghost orig = fields_view(fs@);
        push_field(fs, "challenge", Json::Str(self.challenge.clone()));
        push_field(fs, "timestamp", Json::UInt(self.timestamp));
        proof {
            assert(fields_view(fs@) =~= orig + self.fieldsv());
        }
    }

    /// Every payload value's field list has the payload's shape.
    pub proof fn lemma_fields_shape(p: Self)
        ensures
            Self::fields_shape(p.fieldsv()),
    {

    }
}


/// Wire type `AuthResponsePayload`.
#[derive(Debug, Clone, PartialEq)]
pub struct AuthResponsePayload {
    pub agent_id: String,
    pub signature: String,
    pub public_key: String,
}

impl AuthResponsePayload {
    /// This value's fields in wire order.
    pub open spec fn fieldsv(self) -> Seq<(Seq<char>, JsonV)> {
        seq![
            ("agent_id"@, JsonV::Str(self.agent_id@)),
            ("signature"@, JsonV::Str(self.signature@)),
            ("public_key"@, JsonV::Str(self.public_key@)),
        ]
    }


    /// Whether a field list has this payload's wire shape.
    pub open spec fn fields_shape(fs: Seq<(Seq<char>, JsonV)>) -> bool {
        &&& fs.len() == 3
        &&& fs[0].0 == "agent_id"@
        &&& fs[0].1 is Str
        &&& fs[1].0 == "signature"@
        &&& fs[1].1 is Str
        &&& fs[2].0 == "public_key"@
        &&& fs[2].1 is Str
    }

    /// Reads the payload back from the tail of an object's fields.
    pub fn from_fields(fields: &Vec<(String, Json)>, start: usize) -> (r: Option<Self>)
        requires
            start <= fields@.len(),
        ensures
            match r {
                Some(p) => fields_view(fields@).skip(start as int) == p.fieldsv(),
                None => !Self::fields_shape(fields_view(fields@).skip(start as int)),
            },
    {
        proof {
            lemma_fields_view(fields@);
        }
        if fields.len() - start != 3 {
            return None;
        }
        if !key_is(&fields[start + 0], "agent_id") {
            return None;
        }
        if !key_is(&fields[start + 1], "signature") {
            return None;
        }
        if !key_is(&fields[start + 2], "public_key") {
            return None;
        }
        let agent_id = match &fields[start + 0].1 {
            Json::Str(sv) => sv.clone(),
            _ => {
                return None;
            },
        };
        let signature = match &fields[start + 1].1 {
            Json::Str(sv) => sv.clone(),
            _ => {
                return None;
            },
        };
        let public_key = match &fields[start + 2].1 {
            Json::Str(sv) => sv.clone(),
            _ => {
                return None;
            },
        };
        let p = AuthResponsePayload { agent_id, signature, public_key };
        proof {
            assert(fields_view(fields@).skip(start as int) =~= p.fieldsv());
        }
        Some(p)
    }

    /// Appends this payload's fields to an object under construction.
    pub fn push_json_fields(&self, fs: &mut Vec<(String, Json)>)
        ensures
            fields_view(final(fs)@) == fields_view(old(fs)@) + self.fieldsv(),
    {
        let ghost orig = fields_view(fs@);
        push_field(fs, "agent_id", Json::Str(self.agent_id.clone()));
        push_field(fs, "signature", Json::Str(self.signature.clone()));
        push_field(fs, "public_key", Json::Str(self.public_key.clone()));
        proof {
            assert(fields_view(fs@) =~= orig + self.fieldsv());
        }
    }

    /// Every payload value's field list has the payload's shape.
    pub proof fn lemma_fields_shape(p: Self)
        ensures
            Self::fields_shape(p.fieldsv()),
    {

    }
}


/// Wire type `AuthSuccessPayload`.
#[derive(Debug, Clone, PartialEq)]
pub struct AuthSuccessPayload {
    pub jwt_token: String,
    pub expires_in: u64,
}

impl AuthSuccessPayload {
    /// This value's fields in wire order.
    pub open spec fn fieldsv(self) -> Seq<(Seq<char>, JsonV)> {
        seq![
            ("jwt_token"@, JsonV::Str(self.jwt_token@)),
            ("expires_in"@, JsonV::UInt(self.expires_in)),
        ]
    }


    /// Whether a field list has this payload's wire shape.
    pub open spec fn fields_shape(fs: Seq<(Seq<char>, JsonV)>) -> bool {
        &&& fs.len() == 2
        &&& fs[0].0 == "jwt_token"@
        &&& fs[0].1 is Str
        &&& fs[1].0 == "expires_in"@
        &&& fs[1].1 is UInt
    }

    /// Reads the payload back from the tail of an object's fields.
    pub fn from_fields(fields: &Vec<(String, Json)>, start: usize) -> (r: Option<Self>)
        requires
            start <= fields@.len(),
        ensures
            match r {
                Some(p) => fields_view(fields@).skip(start as int) == p.fieldsv(),
                None => !Self::fields_shape(fields_view(fields@).skip(start as int)),
            },
    {
        proof {
            lemma_fields_view(fields@);
        }
        if fields.len() - start != 2 {
            return None;
        }
        if !key_is(&fields[start + 0], "jwt_token") {
            return None;
        }
        if !key_is(&fields[start + 1], "expires_in") {
            return None;
        }
        let jwt_token = match &fields[start + 0].1 {
            Json::Str(sv) => sv.clone(),
            _ => {
                return None;
            },
        };
        let expires_in = match &fields[start + 1].1 {
            Json::UInt(nv) => *nv,
            _ => {
                return None;
            },
        };
        let p = AuthSuccessPayload { jwt_token, expires_in };
        proof {
            assert(fields_view(fields@).skip(start as int) =~= p.fieldsv());
        }
        Some(p)
    }

    /// Appends this payload's fields to an object under construction.
    pub fn push_json_fields(&self, fs: &mut Vec<(String, Json)>)
        ensures
            fields_view(final(fs)@) == fields_view(old(fs)@) + self.fieldsv(),
    {
        let ghost orig = fields_view(fs@);
        push_field(fs, "jwt_token", Json::Str(self.jwt_token.clone()));
        push_field(fs, "expires_in", Json::UInt(self.expires_in));
        proof {
            assert(fields_view(fs@) =~= orig + self.fieldsv());
        }
    }

    /// Every payload value's field list has the payload's shape.
    pub proof fn lemma_fields_shape(p: Self)
        ensures
            Self::fields_shape(p.fieldsv()),
    {

    }
}


/// Wire type `AgentRegisterPayload`.
#[derive(Debug, Clone, PartialEq)]
pub struct AgentRegisterPayload {
    pub agent_id: String,
    pub hardware: HardwareInfo,
    pub capabilities: Capabilities,
    pub location: Location,
    pub availability: Availability,
}

impl AgentRegisterPayload {
    /// This value's fields in wire order.
    pub open spec fn fieldsv(self) -> Seq<(Seq<char>, JsonV)> {
        seq![
            ("agent_id"@, JsonV::Str(self.agent_id@)),
            ("hardware"@, self.hardware.jsonv()),
            ("capabilities"@, self.capabilities.jsonv()),
            ("location"@, self.location.jsonv()),
            ("availability"@, self.availability.jsonv()),
        ]
    }


    /// Whether a field list has this payload's wire shape.
    pub open spec fn fields_shape(fs: Seq<(Seq<char>, JsonV)>) -> bool {
        &&& fs.len() == 5
        &&& fs[0].0 == "agent_id"@
        &&& fs[0].1 is Str
        &&& fs[1].0 == "hardware"@
        &&& HardwareInfo::is_shape(fs[1].1)
        &&& fs[2].0 == "capabilities"@
        &&& Capabilities::is_shape(fs[2].1)
        &&& fs[3].0 == "location"@
        &&& Location::is_shape(fs[3].1)
        &&& fs[4].0 == "availability"@
        &&& Availability::is_shape(fs[4].1)
    }

    /// Reads the payload back from the tail of an object's fields.
    pub fn from_fields(fields: &Vec<(String, Json)>, start: usize) -> (r: Option<Self>)
        requires
            start <= fields@.len(),
        ensures
            match r {
                Some(p) => fields_view(fields@).skip(start as int) == p.fieldsv(),
                None => !Self::fields_shape(fields_view(fields@).skip(start as int)),
            },
    {
        proof {
            lemma_fields_view(fields@);
        }
        if fields.len() - start != 5 {
            return None;
        }
        if !key_is(&fields[start + 0], "agent_id") {
            return None;
        }
        if !key_is(&fields[start + 1], "hardware") {
            return None;
        }
        if !key_is(&fields[start + 2], "capabilities") {
            return None;
        }
        if !key_is(&fields[start + 3], "location") {
            return None;
        }
        if !key_is(&fields[start + 4], "availability") {
            return None;
        }
        let agent_id = match &fields[start + 0].1 {
            Json::Str(sv) => sv.clone(),
            _ => {
                return None;
            },
        };
        let hardware = match HardwareInfo::from_json(&fields[start + 1].1) {
            Some(tv) => tv,
            None => {
                return None;
            },
        };
        let capabilities = match Capabilities::from_json(&fields[start + 2].1) {
            Some(tv) => tv,
            None => {
                return None;
            },
        };
        let location = match Location::from_json(&fields[start + 3].1) {
            Some(tv) => tv,
            None => {
                return None;
            },
        };
        let availability = match Availability::from_json(&fields[start + 4].1) {
            Some(tv) => tv,
            None => {
                return None;
            },
        };
        let p = AgentRegisterPayload { agent_id, hardware, capabilities, location, availability };
        proof {
            assert(fields_view(fields@).skip(start as int) =~= p.fieldsv());
        }
        Some(p)
    }

    /// Appends this payload's fields to an object under construction.
    pub fn push_json_fields(&self, fs: &mut Vec<(String, Json)>)
        ensures
            fields_view(final(fs)@) == fields_view(old(fs)@) + self.fieldsv(),
    {
        let ghost orig = fields_view(fs@);
        push_field(fs, "agent_id", Json::Str(self.agent_id.clone()));
        push_field(fs, "hardware", self.hardware.to_json());
        push_field(fs, "capabilities", self.capabilities.to_json());
        push_field(fs, "location", self.location.to_json());
        push_field(fs, "availability", self.availability.to_json());
        proof {
            assert(fields_view(fs@) =~= orig + self.fieldsv());
        }
    }

    /// Every payload value's field list has the payload's shape.
    pub proof fn lemma_fields_shape(p: Self)
        ensures
            Self::fields_shape(p.fieldsv()),
    {
    HardwareInfo::lemma_shape(p.hardware);
    Capabilities::lemma_shape(p.capabilities);
    Location::lemma_shape(p.location);
    Availability::lemma_shape(p.availability);
    }
}


/// Wire type `RegisterAckPayload`.
#[derive(Debug, Clone, PartialEq)]
pub struct RegisterAckPayload {
    pub agent_id: String,
    pub status: String,
    pub pricing: Pricing,
}

impl RegisterAckPayload {
    /// This value's fields in wire order.
    pub open spec fn fieldsv(self) -> Seq<(Seq<char>, JsonV)> {
        seq![
            ("agent_id"@, JsonV::Str(self.agent_id@)),
            ("status"@, JsonV::Str(self.status@)),
            ("pricing"@, self.pricing.jsonv()),
        ]
    }


    /// Whether a field list has this payload's wire shape.
    pub open spec fn fields_shape(fs: Seq<(Seq<char>, JsonV)>) -> bool {
        &&& fs.len() == 3
        &&& fs[0].0 == "agent_id"@
        &&& fs[0].1 is Str
        &&& fs[1].0 == "status"@
        &&& fs[1].1 is Str
        &&& fs[2].0 == "pricing"@
        &&& Pricing::is_shape(fs[2].1)
    }

    /// Reads the payload back from the tail of an object's fields.
    pub fn from_fields(fields: &Vec<(String, Json)>, start: usize) -> (r: Option<Self>)
        requires
            start <= fields@.len(),
        ensures
            match r {
                Some(p) => fields_view(fields@).skip(start as int) == p.fieldsv(),
                None => !Self::fields_shape(fields_view(fields@).skip(start as int)),
            },
    {
        proof {
            lemma_fields_view(fields@);
        }
        if fields.len() - start != 3 {
            return None;
        }
        if !key_is(&fields[start + 0], "agent_id") {
            return None;
        }
        if !key_is(&fields[start + 1], "status") {
            return None;
        }
        if !key_is(&fields[start + 2], "pricing") {
            return None;
        }
        let agent_id = match &fields[start + 0].1 {
            Json::Str(sv) => sv.clone(),
            _ => {
                return None;
            },
        };
        let status = match &fields[start + 1].1 {
            Json::Str(sv) => sv.clone(),
            _ => {
                return None;
            },
        };
        let pricing = match Pricing::from_json(&fields[start + 2].1) {
            Some(tv) => tv,
            None => {
                return None;
            },
        };
        let p = RegisterAckPayload { agent_id, status, pricing };
        proof {
            assert(fields_view(fields@).skip(start as int) =~= p.fieldsv());
        }
        Some(p)
    }

    /// Appends this payload's fields to an object under construction.
    pub fn push_json_fields(&self, fs: &mut Vec<(String, Json)>)
        ensures
            fields_view(final(fs)@) == fields_view(old(fs)@) + self.fieldsv(),
    {
        let ghost orig = fields_view(fs@);
        push_field(fs, "agent_id", Json::Str(self.agent_id.clone()));
        push_field(fs, "status", Json::Str(self.status.clone()));
        push_field(fs, "pricing", self.pricing.to_json());
        proof {
            assert(fields_view(fs@) =~= orig + self.fieldsv());
        }
    }

    /// Every payload value's field list has the payload's shape.
    pub proof fn lemma_fields_shape(p: Self)
        ensures
            Self::fields_shape(p.fieldsv()),
    {
    Pricing::lemma_shape(p.pricing);
    }
}


/// Wire type `TaskAssignPayload`.
#[derive(Debug, Clone, PartialEq)]
pub struct TaskAssignPayload {
    pub task_id: String,
    pub job_id: String,
    pub priority: u32,
    pub estimated_duration_sec: u32,
    pub requirements: TaskRequirements,
    pub payload: TaskPayload,
    pub pricing: Pricing,
}

impl TaskAssignPayload {
    /// This value's fields in wire order.
    pub open spec fn fieldsv(self) -> Seq<(Seq<char>, JsonV)> {
        seq![
            ("task_id"@, JsonV::Str(self.task_id@)),
            ("job_id"@, JsonV::Str(self.job_id@)),
            ("priority"@, JsonV::UInt(self.priority as u64)),
            ("estimated_duration_sec"@, JsonV::UInt(self.estimated_duration_sec as u64)),
            ("requirements"@, self.requirements.jsonv()),
            ("payload"@, self.payload.jsonv()),
            ("pricing"@, self.pricing.jsonv()),
        ]
    }


    /// Whether a field list has this payload's wire shape.
    pub open spec fn fields_shape(fs: Seq<(Seq<char>, JsonV)>) -> bool {
        &&& fs.len() == 7
        &&& fs[0].0 == "task_id"@
        &&& fs[0].1 is Str
        &&& fs[1].0 == "job_id"@
        &&& fs[1].1 is Str
        &&& fs[2].0 == "priority"@
        &&& (fs[2].1 matches JsonV::UInt(nn) && nn <= u32::MAX)
        &&& fs[3].0 == "estimated_duration_sec"@
        &&& (fs[3].1 matches JsonV::UInt(nn) && nn <= u32::MAX)
        &&& fs[4].0 == "requirements"@
        &&& TaskRequirements::is_shape(fs[4].1)
        &&& fs[5].0 == "payload"@
        &&& TaskPayload::is_shape(fs[5].1)
        &&& fs[6].0 == "pricing"@
        &&& Pricing::is_shape(fs[6].1)
    }

    /// Reads the payload back from the tail of an object's fields.
    pub fn from_fields(fields: &Vec<(String, Json)>, start: usize) -> (r: Option<Self>)
        requires
            start <= fields@.len(),
        ensures
            match r {
                Some(p) => fields_view(fields@).skip(start as int) == p.fieldsv(),
                None => !Self::fields_shape(fields_view(fields@).skip(start as int)),
            },
    {
        proof {
            lemma_fields_view(fields@);
        }
        if fields.len() - start != 7 {
            return None;
        }
        if !key_is(&fields[start + 0], "task_id") {
            return None;
        }
        if !key_is(&fields[start + 1], "job_id") {
            return None;
        }
        if !key_is(&fields[start + 2], "priority") {
            return None;
        }
        if !key_is(&fields[start + 3], "estimated_duration_sec") {
            return None;
        }
        if !key_is(&fields[start + 4], "requirements") {
            return None;
        }
        if !key_is(&fields[start + 5], "payload") {
            return None;
        }
        if !key_is(&fields[start + 6], "pricing") {
            return None;
        }
        let task_id = match &fields[start + 0].1 {
            Json::Str(sv) => sv.clone(),
            _ => {
                return None;
            },
        };
        let job_id = match &fields[start + 1].1 {
            Json::Str(sv) => sv.clone(),
            _ => {
                return None;
            },
        };
        let priority = match &fields[start + 2].1 {
            Json::UInt(nv) => {
                if *nv > u32::MAX as u64 {
                    return None;
                }
                *nv as u32
            },
            _ => {
                return None;
            },
        };
        let estimated_duration_sec = match &fields[start + 3].1 {
            Json::UInt(nv) => {
                if *nv > u32::MAX as u64 {
                    return None;
                }
                *nv as u32
            },
            _ => {
                return None;
            },
        };
        let requirements = match TaskRequirements::from_json(&fields[start + 4].1) {
            Some(tv) => tv,
            None => {
                return None;
            },
        };
        let payload = match TaskPayload::from_json(&fields[start + 5].1) {
            Some(tv) => tv,
            None => {
                return None;
            },
        };
        let pricing = match Pricing::from_json(&fields[start + 6].1) {
            Some(tv) => tv,
            None => {
                return None;
            },
        };
        let p = TaskAssignPayload { task_id, job_id, priority, estimated_duration_sec, requirements, payload, pricing };
        proof {
            assert(fields_view(fields@).skip(start as int) =~= p.fieldsv());
        }
        Some(p)
    }

    /// Appends this payload's fields to an object under construction.
    pub fn push_json_fields(&self, fs: &mut Vec<(String, Json)>)
        ensures
            fields_view(final(fs)@) == fields_view(old(fs)@) + self.fieldsv(),
    {
        let ghost orig = fields_view(fs@);
        push_field(fs, "task_id", Json::Str(self.task_id.clone()));
        push_field(fs, "job_id", Json::Str(self.job_id.clone()));
        push_field(fs, "priority", Json::UInt(self.priority as u64));
        push_field(fs, "estimated_duration_sec", Json::UInt(self.estimated_duration_sec as u64));
        push_field(fs, "requirements", self.requirements.to_json());
        push_field(fs, "payload", self.payload.to_json());
        push_field(fs, "pricing", self.pricing.to_json());
        proof {
            assert(fields_view(fs@) =~= orig + self.fieldsv());
        }
    }

    /// Every payload value's field list has the payload's shape.
    pub proof fn lemma_fields_shape(p: Self)
        ensures
            Self::fields_shape(p.fieldsv()),
    {
    TaskRequirements::lemma_shape(p.requirements);
    TaskPayload::lemma_shape(p.payload);
    Pricing::lemma_shape(p.pricing);
    }
}


/// Wire type `TaskAcceptPayload`.
#[derive(Debug, Clone, PartialEq)]
pub struct TaskAcceptPayload {
    pub task_id: String,
    pub agent_id: String,
    pub gpu_allocated: u32,
    pub estimated_completion: u64,
}

impl TaskAcceptPayload {
    /// This value's fields in wire order.
    pub open spec fn fieldsv(self) -> Seq<(Seq<char>, JsonV)> {
        seq![
            ("task_id"@, JsonV::Str(self.task_id@)),
            ("agent_id"@, JsonV::Str(self.agent_id@)),
            ("gpu_allocated"@, JsonV::UInt(self.gpu_allocated as u64)),
            ("estimated_completion"@, JsonV::UInt(self.estimated_completion)),
        ]
    }


    /// Whether a field list has this payload's wire shape.
    pub open spec fn fields_shape(fs: Seq<(Seq<char>, JsonV)>) -> bool {
        &&& fs.len() == 4
        &&& fs[0].0 == "task_id"@
        &&& fs[0].1 is Str
        &&& fs[1].0 == "agent_id"@
        &&& fs[1].1 is Str
        &&& fs[2].0 == "gpu_allocated"@
        &&& (fs[2].1 matches JsonV::UInt(nn) && nn <= u32::MAX)
        &&& fs[3].0 == "estimated_completion"@
        &&& fs[3].1 is UInt
    }

    /// Reads the payload back from the tail of an object's fields.
    pub fn from_fields(fields: &Vec<(String, Json)>, start: usize) -> (r: Option<Self>)
        requires
            start <= fields@.len(),
        ensures
            match r {
                Some(p) => fields_view(fields@).skip(start as int) == p.fieldsv(),
                None => !Self::fields_shape(fields_view(fields@).skip(start as int)),
            },
    {
        proof {
            lemma_fields_view(fields@);
        }
        if fields.len() - start != 4 {
            return None;
        }
        if !key_is(&fields[start + 0], "task_id") {
            return None;
        }
        if !key_is(&fields[start + 1], "agent_id") {
            return None;
        }
        if !key_is(&fields[start + 2], "gpu_allocated") {
            return None;
        }
        if !key_is(&fields[start + 3], "estimated_completion") {
            return None;
        }
        let task_id = match &fields[start + 0].1 {
            Json::Str(sv) => sv.clone(),
            _ => {
                return None;
            },
        };
        let agent_id = match &fields[start + 1].1 {
            Json::Str(sv) => sv.clone(),
            _ => {
                return None;
            },
        };
        let gpu_allocated = match &fields[start + 2].1 {
            Json::UInt(nv) => {
                if *nv > u32::MAX as u64 {
                    return None;
                }
                *nv as u32
            },
            _ => {
                return None;
            },
        };
        let estimated_completion = match &fields[start + 3].1 {
            Json::UInt(nv) => *nv,
            _ => {
                return None;
            },
        };
        let p = TaskAcceptPayload { task_id, agent_id, gpu_allocated, estimated_completion };
        proof {
            assert(fields_view(fields@).skip(start as int) =~= p.fieldsv());
        }
        Some(p)
    }

    /// Appends this payload's fields to an object under construction.
    pub fn push_json_fields(&self, fs: &mut Vec<(String, Json)>)
        ensures
            fields_view(final(fs)@) == fields_view(old(fs)@) + self.fieldsv(),
    {
        let ghost orig = fields_view(fs@);
        push_field(fs, "task_id", Json::Str(self.task_id.clone()));
        push_field(fs, "agent_id", Json::Str(self.agent_id.clone()));
        push_field(fs, "gpu_allocated", Json::UInt(self.gpu_allocated as u64));
        push_field(fs, "estimated_completion", Json::UInt(self.estimated_completion));
        proof {
            assert(fields_view(fs@) =~= orig + self.fieldsv());
        }
    }

    /// Every payload value's field list has the payload's shape.
    pub proof fn lemma_fields_shape(p: Self)
        ensures
            Self::fields_shape(p.fieldsv()),
    {

    }
}


/// Wire type `TaskRejectPayload`.
#[derive(Debug, Clone, PartialEq)]
pub struct TaskRejectPayload {
    pub task_id: String,
    pub reason: String,
    pub details: String,
}

impl TaskRejectPayload {
    /// This value's fields in wire order.
    pub open spec fn fieldsv(self) -> Seq<(Seq<char>, JsonV)> {
        seq![
            ("task_id"@, JsonV::Str(self.task_id@)),
            ("reason"@, JsonV::Str(self.reason@)),
            ("details"@, JsonV::Str(self.details@)),
        ]
    }


    /// Whether a field list has this payload's wire shape.
    pub open spec fn fields_shape(fs: Seq<(Seq<char>, JsonV)>) -> bool {
        &&& fs.len() == 3
        &&& fs[0].0 == "task_id"@
        &&& fs[0].1 is Str
        &&& fs[1].0 == "reason"@
        &&& fs[1].1 is Str
        &&& fs[2].0 == "details"@
        &&& fs[2].1 is Str
    }

    /// Reads the payload back from the tail of an object's fields.
    pub fn from_fields(fields: &Vec<(String, Json)>, start: usize) -> (r: Option<Self>)
        requires
            start <= fields@.len(),
        ensures
            match r {
                Some(p) => fields_view(fields@).skip(start as int) == p.fieldsv(),
                None => !Self::fields_shape(fields_view(fields@).skip(start as int)),
            },
    {
        proof {
            lemma_fields_view(fields@);
        }
        if fields.len() - start != 3 {
            return None;
        }
        if !key_is(&fields[start + 0], "task_id") {
            return None;
        }
        if !key_is(&fields[start + 1], "reason") {
            return None;
        }
        if !key_is(&fields[start + 2], "details") {
            return None;
        }
        let task_id = match &fields[start + 0].1 {
            Json::Str(sv) => sv.clone(),
            _ => {
                return None;
            },
        };
        let reason = match &fields[start + 1].1 {
            Json::Str(sv) => sv.clone(),
            _ => {
                return None;
            },
        };
        let details = match &fields[start + 2].1 {
            Json::Str(sv) => sv.clone(),
            _ => {
                return None;
            },
        };
        let p = TaskRejectPayload { task_id, reason, details };
        proof {
            assert(fields_view(fields@).skip(start as int) =~= p.fieldsv());
        }
        Some(p)
    }

    /// Appends this payload's fields to an object under construction.
    pub fn push_json_fields(&self, fs: &mut Vec<(String, Json)>)
        ensures
            fields_view(final(fs)@) == fields_view(old(fs)@) + self.fieldsv(),
    {
        let ghost orig = fields_view(fs@);
        push_field(fs, "task_id", Json::Str(self.task_id.clone()));
        push_field(fs, "reason", Json::Str(self.reason.clone()));
        push_field(fs, "details", Json::Str(self.details.clone()));
        proof {
            assert(fields_view(fs@) =~= orig + self.fieldsv());
        }
    }

    /// Every payload value's field list has the payload's shape.
    pub proof fn lemma_fields_shape(p: Self)
        ensures
            Self::fields_shape(p.fieldsv()),
    {

    }
}


/// Wire type `TaskProgressPayload`.
#[derive(Debug, Clone, PartialEq)]
pub struct TaskProgressPayload {
    pub task_id: String,
    pub progress_permille: u32,
    pub stage: String,
    pub metrics: TaskMetrics,
    pub timestamp: u64,
}

impl TaskProgressPayload {
    /// This value's fields in wire order.
    pub open spec fn fieldsv(self) -> Seq<(Seq<char>, JsonV)> {
        seq![
            ("task_id"@, JsonV::Str(self.task_id@)),
            ("progress_permille"@, JsonV::UInt(self.progress_permille as u64)),
            ("stage"@, JsonV::Str(self.stage@)),
            ("metrics"@, self.metrics.jsonv()),
            ("timestamp"@, JsonV::UInt(self.timestamp)),
        ]
    }


    /// Whether a field list has this payload's wire shape.
    pub open spec fn fields_shape(fs: Seq<(Seq<char>, JsonV)>) -> bool {
        &&& fs.len() == 5
        &&& fs[0].0 == "task_id"@
        &&& fs[0].1 is Str
        &&& fs[1].0 == "progress_permille"@
        &&& (fs[1].1 matches JsonV::UInt(nn) && nn <= u32::MAX)
        &&& fs[2].0 == "stage"@
        &&& fs[2].1 is Str
        &&& fs[3].0 == "metrics"@
        &&& TaskMetrics::is_shape(fs[3].1)
        &&& fs[4].0 == "timestamp"@
        &&& fs[4].1 is UInt
    }

    /// Reads the payload back from the tail of an object's fields.
    pub fn from_fields(fields: &Vec<(String, Json)>, start: usize) -> (r: Option<Self>)
        requires
            start <= fields@.len(),
        ensures
            match r {
                Some(p) => fields_view(fields@).skip(start as int) == p.fieldsv(),
                None => !Self::fields_shape(fields_view(fields@).skip(start as int)),
            },
    {
        proof {
            lemma_fields_view(fields@);
        }
        if fields.len() - start != 5 {
            return None;
        }
        if !key_is(&fields[start + 0], "task_id") {
            return None;
        }
        if !key_is(&fields[start + 1], "progress_permille") {
            return None;
        }
        if !key_is(&fields[start + 2], "stage") {
            return None;
        }
        if !key_is(&fields[start + 3], "metrics") {
            return None;
        }
        if !key_is(&fields[start + 4], "timestamp") {
            return None;
        }
        let task_id = match &fields[start + 0].1 {
            Json::Str(sv) => sv.clone(),
            _ => {
                return None;
            },
        };
        let progress_permille = match &fields[start + 1].1 {
            Json::UInt(nv) => {
                if *nv > u32::MAX as u64 {
                    return None;
                }
                *nv as u32
            },
            _ => {
                return None;
            },
        };
        let stage = match &fields[start + 2].1 {
            Json::Str(sv) => sv.clone(),
            _ => {
                return None;
            },
        };
        let metrics = match TaskMetrics::from_json(&fields[start + 3].1) {
            Some(tv) => tv,
            None => {
                return None;
            },
        };
        let timestamp = match &fields[start + 4].1 {
            Json::UInt(nv) => *nv,
            _ => {
                return None;
            },
        };
        let p = TaskProgressPayload { task_id, progress_permille, stage, metrics, timestamp };
        proof {
            assert(fields_view(fields@).skip(start as int) =~= p.fieldsv());
        }
        Some(p)
    }

    /// Appends this payload's fields to an object under construction.
    pub fn push_json_fields(&self, fs: &mut Vec<(String, Json)>)
        ensures
            fields_view(final(fs)@) == fields_view(old(fs)@) + self.fieldsv(),
    {
        let ghost orig = fields_view(fs@);
        push_field(fs, "task_id", Json::Str(self.task_id.clone()));
        push_field(fs, "progress_permille", Json::UInt(self.progress_permille as u64));
        push_field(fs, "stage", Json::Str(self.stage.clone()));
        push_field(fs, "metrics", self.metrics.to_json());
        push_field(fs, "timestamp", Json::UInt(self.timestamp));
        proof {
            assert(fields_view(fs@) =~= orig + self.fieldsv());
        }
    }

    /// Every payload value's field list has the payload's shape.
    pub proof fn lemma_fields_shape(p: Self)
        ensures
            Self::fields_shape(p.fieldsv()),
    {
    TaskMetrics::lemma_shape(p.metrics);
    }
}


/// Wire type `TaskCompletePayload`.
#[derive(Debug, Clone, PartialEq)]
pub struct TaskCompletePayload {
    pub task_id: String,
    pub result: TaskResult,
    pub proof_of_work: ProofOfWork,
    pub metrics: ExecutionMetrics,
}

impl TaskCompletePayload {
    /// This value's fields in wire order.
    pub open spec fn fieldsv(self) -> Seq<(Seq<char>, JsonV)> {
        seq![
            ("task_id"@, JsonV::Str(self.task_id@)),
            ("result"@, self.result.jsonv()),
            ("proof_of_work"@, self.proof_of_work.jsonv()),
            ("metrics"@, self.metrics.jsonv()),
        ]
    }


    /// Whether a field list has this payload's wire shape.
    pub open spec fn fields_shape(fs: Seq<(Seq<char>, JsonV)>) -> bool {
        &&& fs.len() == 4
        &&& fs[0].0 == "task_id"@
        &&& fs[0].1 is Str
        &&& fs[1].0 == "result"@
        &&& TaskResult::is_shape(fs[1].1)
        &&& fs[2].0 == "proof_of_work"@
        &&& ProofOfWork::is_shape(fs[2].1)
        &&& fs[3].0 == "metrics"@
        &&& ExecutionMetrics::is_shape(fs[3].1)
    }

    /// Reads the payload back from the tail of an object's fields.
    pub fn from_fields(fields: &Vec<(String, Json)>, start: usize) -> (r: Option<Self>)
        requires
            start <= fields@.len(),
        ensures
            match r {
                Some(p) => fields_view(fields@).skip(start as int) == p.fieldsv(),
                None => !Self::fields_shape(fields_view(fields@).skip(start as int)),
            },
    {
        proof {
            lemma_fields_view(fields@);
        }
        if fields.len() - start != 4 {
            return None;
        }
        if !key_is(&fields[start + 0], "task_id") {
            return None;
        }
        if !key_is(&fields[start + 1], "result") {
            return None;
        }
        if !key_is(&fields[start + 2], "proof_of_work") {
            return None;
        }
        if !key_is(&fields[start + 3], "metrics") {
            return None;
        }
        let task_id = match &fields[start + 0].1 {
            Json::Str(sv) => sv.clone(),
            _ => {
                return None;
            },
        };
        let result = match TaskResult::from_json(&fields[start + 1].1) {
            Some(tv) => tv,
            None => {
                return None;
            },
        };
        let proof_of_work = match ProofOfWork::from_json(&fields[start + 2].1) {
            Some(tv) => tv,
            None => {
                return None;
            },
        };
        let metrics = match ExecutionMetrics::from_json(&fields[start + 3].1) {
            Some(tv) => tv,
            None => {
                return None;
            },
        };
        let p = TaskCompletePayload { task_id, result, proof_of_work, metrics };
        proof {
            assert(fields_view(fields@).skip(start as int) =~= p.fieldsv());
        }
        Some(p)
    }

    /// Appends this payload's fields to an object under construction.
    pub fn push_json_fields(&self, fs: &mut Vec<(String, Json)>)
        ensures
            fields_view(final(fs)@) == fields_view(old(fs)@) + self.fieldsv(),
    {
        let ghost orig = fields_view(fs@);
        push_field(fs, "task_id", Json::Str(self.task_id.clone()));
        push_field(fs, "result", self.result.to_json());
        push_field(fs, "proof_of_work", self.proof_of_work.to_json());
        push_field(fs, "metrics", self.metrics.to_json());
        proof {
            assert(fields_view(fs@) =~= orig + self.fieldsv());
        }
    }

    /// Every payload value's field list has the payload's shape.
    pub proof fn lemma_fields_shape(p: Self)
        ensures
            Self::fields_shape(p.fieldsv()),
    {
    TaskResult::lemma_shape(p.result);
    ProofOfWork::lemma_shape(p.proof_of_work);
    ExecutionMetrics::lemma_shape(p.metrics);
    }
}


/// Wire type `TaskFailedPayload`.
#[derive(Debug, Clone, PartialEq)]
pub struct TaskFailedPayload {
    pub task_id: String,
    pub error: TaskErrorInfo,
    pub partial_results: Option<String>,
}

impl TaskFailedPayload {
    /// This value's fields in wire order.
    pub open spec fn fieldsv(self) -> Seq<(Seq<char>, JsonV)> {
        seq![
            ("task_id"@, JsonV::Str(self.task_id@)),
            ("error"@, self.error.jsonv()),
            ("partial_results"@, opt_str_jsonv(opt_str_view(self.partial_results))),
        ]
    }


    /// Whether a field list has this payload's wire shape.
    pub open spec fn fields_shape(fs: Seq<(Seq<char>, JsonV)>) -> bool {
        &&& fs.len() == 3
        &&& fs[0].0 == "task_id"@
        &&& fs[0].1 is Str
        &&& fs[1].0 == "error"@
        &&& TaskErrorInfo::is_shape(fs[1].1)
        &&& fs[2].0 == "partial_results"@
        &&& (fs[2].1 is Null || fs[2].1 is Str)
    }

    /// Reads the payload back from the tail of an object's fields.
    pub fn from_fields(fields: &Vec<(String, Json)>, start: usize) -> (r: Option<Self>)
        requires
            start <= fields@.len(),
        ensures
            match r {
                Some(p) => fields_view(fields@).skip(start as int) == p.fieldsv(),
                None => !Self::fields_shape(fields_view(fields@).skip(start as int)),
            },
    {
        proof {
            lemma_fields_view(fields@);
        }
        if fields.len() - start != 3 {
            return None;
        }
        if !key_is(&fields[start + 0], "task_id") {
            return None;
        }
        if !key_is(&fields[start + 1], "error") {
            return None;
        }
        if !key_is(&fields[start + 2], "partial_results") {
            return None;
        }
        let task_id = match &fields[start + 0].1 {
            Json::Str(sv) => sv.clone(),
            _ => {
                return None;
            },
        };
        let error = match TaskErrorInfo::from_json(&fields[start + 1].1) {
            Some(tv) => tv,
            None => {
                return None;
            },
        };
        let partial_results = match opt_str_from_json(&fields[start + 2].1) {
            Some(ov) => ov,
            None => {
                return None;
            },
        };
        let p = TaskFailedPayload { task_id, error, partial_results };
        proof {
            assert(fields_view(fields@).skip(start as int) =~= p.fieldsv());
        }
        Some(p)
    }

    /// Appends this payload's fields to an object under construction.
    pub fn push_json_fields(&self, fs: &mut Vec<(String, Json)>)
        ensures
            fields_view(final(fs)@) == fields_view(old(fs)@) + self.fieldsv(),
    {
        let ghost orig = fields_view(fs@);
        push_field(fs, "task_id", Json::Str(self.task_id.clone()));
        push_field(fs, "error", self.error.to_json());
        push_field(fs, "partial_results", opt_str_to_json(&self.partial_results));
        proof {
            assert(fields_view(fs@) =~= orig + self.fieldsv());
        }
    }

    /// Every payload value's field list has the payload's shape.
    pub proof fn lemma_fields_shape(p: Self)
        ensures
            Self::fields_shape(p.fieldsv()),
    {
    TaskErrorInfo::lemma_shape(p.error);
    }
}


/// Wire type `HeartbeatPayload`.
#[derive(Debug, Clone, PartialEq)]
pub struct HeartbeatPayload {
    pub agent_id: String,
    pub status: AgentStatus,
    pub current_task_id: Option<String>,
    pub gpu_status: Vec<GPUStatus>,
    pub uptime_sec: u64,
    pub timestamp: u64,
}

impl HeartbeatPayload {
    /// This value's fields in wire order.
    pub open spec fn fieldsv(self) -> Seq<(Seq<char>, JsonV)> {
        seq![
            ("agent_id"@, JsonV::Str(self.agent_id@)),
            ("status"@, self.status.jsonv()),
            ("current_task_id"@, opt_str_jsonv(opt_str_view(self.current_task_id))),
            ("gpu_status"@, JsonV::Arr(GPUStatus::list_jsonv(self.gpu_status@))),
            ("uptime_sec"@, JsonV::UInt(self.uptime_sec)),
            ("timestamp"@, JsonV::UInt(self.timestamp)),
        ]
    }


    /// Whether a field list has this payload's wire shape.
    pub open spec fn fields_shape(fs: Seq<(Seq<char>, JsonV)>) -> bool {
        &&& fs.len() == 6
        &&& fs[0].0 == "agent_id"@
        &&& fs[0].1 is Str
        &&& fs[1].0 == "status"@
        &&& AgentStatus::is_shape(fs[1].1)
        &&& fs[2].0 == "current_task_id"@
        &&& (fs[2].1 is Null || fs[2].1 is Str)
        &&& fs[3].0 == "gpu_status"@
        &&& GPUStatus::arr_shape(fs[3].1)
        &&& fs[4].0 == "uptime_sec"@
        &&& fs[4].1 is UInt
        &&& fs[5].0 == "timestamp"@
        &&& fs[5].1 is UInt
    }

    /// Reads the payload back from the tail of an object's fields.
    pub fn from_fields(fields: &Vec<(String, Json)>, start: usize) -> (r: Option<Self>)
        requires
            start <= fields@.len(),
        ensures
            match r {
                Some(p) => fields_view(fields@).skip(start as int) == p.fieldsv(),
                None => !Self::fields_shape(fields_view(fields@).skip(start as int)),
            },
    {
        proof {
            lemma_fields_view(fields@);
        }
        if fields.len() - start != 6 {
            return None;
        }
        if !key_is(&fields[start + 0], "agent_id") {
            return None;
        }
        if !key_is(&fields[start + 1], "status") {
            return None;
        }
        if !key_is(&fields[start + 2], "current_task_id") {
            return None;
        }
        if !key_is(&fields[start + 3], "gpu_status") {
            return None;
        }
        if !key_is(&fields[start + 4], "uptime_sec") {
            return None;
        }
        if !key_is(&fields[start + 5], "timestamp") {
            return None;
        }
        let agent_id = match &fields[start + 0].1 {
            Json::Str(sv) => sv.clone(),
            _ => {
                return None;
            },
        };
        let status = match AgentStatus::from_json(&fields[start + 1].1) {
            Some(tv) => tv,
            None => {
                return None;
            },
        };
        let current_task_id = match opt_str_from_json(&fields[start + 2].1) {
            Some(ov) => ov,
            None => {
                return None;
            },
        };
        let gpu_status = match GPUStatus::vec_from_json(&fields[start + 3].1) {
            Some(vv) => vv,
            None => {
                return None;
            },
        };
        let uptime_sec = match &fields[start + 4].1 {
            Json::UInt(nv) => *nv,
            _ => {
                return None;
            },
        };
        let timestamp = match &fields[start + 5].1 {
            Json::UInt(nv) => *nv,
            _ => {
                return None;
            },
        };
        let p = HeartbeatPayload { agent_id, status, current_task_id, gpu_status, uptime_sec, timestamp };
        proof {
            assert(fields_view(fields@).skip(start as int) =~= p.fieldsv());
        }
        Some(p)
    }

    /// Appends this payload's fields to an object under construction.
    pub fn push_json_fields(&self, fs: &mut Vec<(String, Json)>)
        ensures
            fields_view(final(fs)@) == fields_view(old(fs)@) + self.fieldsv(),
    {
        let ghost orig = fields_view(fs@);
        push_field(fs, "agent_id", Json::Str(self.agent_id.clone()));
        push_field(fs, "status", self.status.to_json());
        push_field(fs, "current_task_id", opt_str_to_json(&self.current_task_id));
        push_field(fs, "gpu_status", GPUStatus::vec_to_json(&self.gpu_status));
        push_field(fs, "uptime_sec", Json::UInt(self.uptime_sec));
        push_field(fs, "timestamp", Json::UInt(self.timestamp));
        proof {
            assert(fields_view(fs@) =~= orig + self.fieldsv());
        }
    }

    /// Every payload value's field list has the payload's shape.
    pub proof fn lemma_fields_shape(p: Self)
        ensures
            Self::fields_shape(p.fieldsv()),
    {
    AgentStatus::lemma_shape(p.status);
    assert forall|q: int| 0 <= q < GPUStatus::list_jsonv(p.gpu_status@).len() implies GPUStatus::is_shape(
        #[trigger] GPUStatus::list_jsonv(p.gpu_status@)[q],
    ) by {
        GPUStatus::lemma_shape(p.gpu_status@[q]);
    }
    }
}


/// Wire type `MetricsBatchPayload`.
#[derive(Debug, Clone, PartialEq)]
pub struct MetricsBatchPayload {
    pub agent_id: String,
    pub time_range: TimeRange,
    pub aggregated_metrics: AggregatedMetrics,
}

impl MetricsBatchPayload {
    /// This value's fields in wire order.
    pub open spec fn fieldsv(self) -> Seq<(Seq<char>, JsonV)> {
        seq![
            ("agent_id"@, JsonV::Str(self.agent_id@)),
            ("time_range"@, self.time_range.jsonv()),
            ("aggregated_metrics"@, self.aggregated_metrics.jsonv()),
        ]
    }


    /// Whether a field list has this payload's wire shape.
    pub open spec fn fields_shape(fs: Seq<(Seq<char>, JsonV)>) -> bool {
        &&& fs.len() == 3
        &&& fs[0].0 == "agent_id"@
        &&& fs[0].1 is Str
        &&& fs[1].0 == "time_range"@
        &&& TimeRange::is_shape(fs[1].1)
        &&& fs[2].0 == "aggregated_metrics"@
        &&& AggregatedMetrics::is_shape(fs[2].1)
    }

    /// Reads the payload back from the tail of an object's fields.
    pub fn from_fields(fields: &Vec<(String, Json)>, start: usize) -> (r: Option<Self>)
        requires
            start <= fields@.len(),
        ensures
            match r {
                Some(p) => fields_view(fields@).skip(start as int) == p.fieldsv(),
                None => !Self::fields_shape(fields_view(fields@).skip(start as int)),
            },
    {
        proof {
            lemma_fields_view(fields@);
        }
        if fields.len() - start != 3 {
            return None;
        }
        if !key_is(&fields[start + 0], "agent_id") {
            return None;
        }
        if !key_is(&fields[start + 1], "time_range") {
            return None;
        }
        if !key_is(&fields[start + 2], "aggregated_metrics") {
            return None;
        }
        let agent_id = match &fields[start + 0].1 {
            Json::Str(sv) => sv.clone(),
            _ => {
                return None;
            },
        };
        let time_range = match TimeRange::from_json(&fields[start + 1].1) {
            Some(tv) => tv,
            None => {
                return None;
            },
        };
        let aggregated_metrics = match AggregatedMetrics::from_json(&fields[start + 2].1) {
            Some(tv) => tv,
            None => {
                return None;
            },
        };
        let p = MetricsBatchPayload { agent_id, time_range, aggregated_metrics };
        proof {
            assert(fields_view(fields@).skip(start as int) =~= p.fieldsv());
        }
        Some(p)
    }

    /// Appends this payload's fields to an object under construction.
    pub fn push_json_fields(&self, fs: &mut Vec<(String, Json)>)
        ensures
            fields_view(final(fs)@) == fields_view(old(fs)@) + self.fieldsv(),
    {
        let ghost orig = fields_view(fs@);
        push_field(fs, "agent_id", Json::Str(self.agent_id.clone()));
        push_field(fs, "time_range", self.time_range.to_json());
        push_field(fs, "aggregated_metrics", self.aggregated_metrics.to_json());
        proof {
            assert(fields_view(fs@) =~= orig + self.fieldsv());
        }
    }

    /// Every payload value's field list has the payload's shape.
    pub proof fn lemma_fields_shape(p: Self)
        ensures
            Self::fields_shape(p.fieldsv()),
    {
    TimeRange::lemma_shape(p.time_range);
    AggregatedMetrics::lemma_shape(p.aggregated_metrics);
    }
}


/// Wire type `EarningsRecordPayload`.
#[derive(Debug, Clone, PartialEq)]
pub struct EarningsRecordPayload {
    pub task_id: String,
    pub earnings: EarningsDetail,
    pub status: EarningStatus,
    pub estimated_payout_date: String,
}

impl EarningsRecordPayload {
    /// This value's fields in wire order.
    pub open spec fn fieldsv(self) -> Seq<(Seq<char>, JsonV)> {
        seq![
            ("task_id"@, JsonV::Str(self.task_id@)),
            ("earnings"@, self.earnings.jsonv()),
            ("status"@, self.status.jsonv()),
            ("estimated_payout_date"@, JsonV::Str(self.estimated_payout_date@)),
        ]
    }


    /// Whether a field list has this payload's wire shape.
    pub open spec fn fields_shape(fs: Seq<(Seq<char>, JsonV)>) -> bool {
        &&& fs.len() == 4
        &&& fs[0].0 == "task_id"@
        &&& fs[0].1 is Str
        &&& fs[1].0 == "earnings"@
        &&& EarningsDetail::is_shape(fs[1].1)
        &&& fs[2].0 == "status"@
        &&& EarningStatus::is_shape(fs[2].1)
        &&& fs[3].0 == "estimated_payout_date"@
        &&& fs[3].1 is Str
    }

    /// Reads the payload back from the tail of an object's fields.
    pub fn from_fields(fields: &Vec<(String, Json)>, start: usize) -> (r: Option<Self>)
        requires
            start <= fields@.len(),
        ensures
            match r {
                Some(p) => fields_view(fields@).skip(start as int) == p.fieldsv(),
                None => !Self::fields_shape(fields_view(fields@).skip(start as int)),
            },
    {
        proof {
            lemma_fields_view(fields@);
        }
        if fields.len() - start != 4 {
            return None;
        }
        if !key_is(&fields[start + 0], "task_id") {
            return None;
        }
        if !key_is(&fields[start + 1], "earnings") {
            return None;
        }
        if !key_is(&fields[start + 2], "status") {
            return None;
        }
        if !key_is(&fields[start + 3], "estimated_payout_date") {
            return None;
        }
        let task_id = match &fields[start + 0].1 {
            Json::Str(sv) => sv.clone(),
            _ => {
                return None;
            },
        };
        let earnings = match EarningsDetail::from_json(&fields[start + 1].1) {
            Some(tv) => tv,
            None => {
                return None;
            },
        };
        let status = match EarningStatus::from_json(&fields[start + 2].1) {
            Some(tv) => tv,
            None => {
                return None;
            },
        };
        let estimated_payout_date = match &fields[start + 3].1 {
            Json::Str(sv) => sv.clone(),
            _ => {
                return None;
            },
        };
        let p = EarningsRecordPayload { task_id, earnings, status, estimated_payout_date };
        proof {
            assert(fields_view(fields@).skip(start as int) =~= p.fieldsv());
        }
        Some(p)
    }

    /// Appends this payload's fields to an object under construction.
    pub fn push_json_fields(&self, fs: &mut Vec<(String, Json)>)
        ensures
            fields_view(final(fs)@) == fields_view(old(fs)@) + self.fieldsv(),
    {
        let ghost orig = fields_view(fs@);
        push_field(fs, "task_id", Json::Str(self.task_id.clone()));
        push_field(fs, "earnings", self.earnings.to_json());
        push_field(fs, "status", self.status.to_json());
        push_field(fs, "estimated_payout_date", Json::Str(self.estimated_payout_date.clone()));
        proof {
            assert(fields_view(fs@) =~= orig + self.fieldsv());
        }
    }

    /// Every payload value's field list has the payload's shape.
    pub proof fn lemma_fields_shape(p: Self)
        ensures
            Self::fields_shape(p.fieldsv()),
    {
    EarningsDetail::lemma_shape(p.earnings);
    EarningStatus::lemma_shape(p.status);
    }
}


/// Wire type `PayoutNotificationPayload`.
#[derive(Debug, Clone, PartialEq)]
pub struct PayoutNotificationPayload {
    pub payout_id: String,
    pub period: PayoutPeriod,
    pub summary: PayoutSummary,
    pub payment_method: String,
    pub payment_address: String,
    pub status: PayoutStatus,
}

impl PayoutNotificationPayload {
    /// This value's fields in wire order.
    pub open spec fn fieldsv(self) -> Seq<(Seq<char>, JsonV)> {
        seq![
            ("payout_id"@, JsonV::Str(self.payout_id@)),
            ("period"@, self.period.jsonv()),
            ("summary"@, self.summary.jsonv()),
            ("payment_method"@, JsonV::Str(self.payment_method@)),
            ("payment_address"@, JsonV::Str(self.payment_address@)),
            ("status"@, self.status.jsonv()),
        ]
    }


    /// Whether a field list has this payload's wire shape.
    pub open spec fn fields_shape(fs: Seq<(Seq<char>, JsonV)>) -> bool {
        &&& fs.len() == 6
        &&& fs[0].0 == "payout_id"@
        &&& fs[0].1 is Str
        &&& fs[1].0 == "period"@
        &&& PayoutPeriod::is_shape(fs[1].1)
        &&& fs[2].0 == "summary"@
        &&& PayoutSummary::is_shape(fs[2].1)
        &&& fs[3].0 == "payment_method"@
        &&& fs[3].1 is Str
        &&& fs[4].0 == "payment_address"@
        &&& fs[4].1 is Str
        &&& fs[5].0 == "status"@
        &&& PayoutStatus::is_shape(fs[5].1)
    }

    /// Reads the payload back from the tail of an object's fields.
    pub fn from_fields(fields: &Vec<(String, Json)>, start: usize) -> (r: Option<Self>)
        requires
            start <= fields@.len(),
        ensures
            match r {
                Some(p) => fields_view(fields@).skip(start as int) == p.fieldsv(),
                None => !Self::fields_shape(fields_view(fields@).skip(start as int)),
            },
    {
        proof {
            lemma_fields_view(fields@);
        }
        if fields.len() - start != 6 {
            return None;
        }
        if !key_is(&fields[start + 0], "payout_id") {
            return None;
        }
        if !key_is(&fields[start + 1], "period") {
            return None;
        }
        if !key_is(&fields[start + 2], "summary") {
            return None;
        }
        if !key_is(&fields[start + 3], "payment_method") {
            return None;
        }
        if !key_is(&fields[start + 4], "payment_address") {
            return None;
        }
        if !key_is(&fields[start + 5], "status") {
            return None;
        }
        let payout_id = match &fields[start + 0].1 {
            Json::Str(sv) => sv.clone(),
            _ => {
                return None;
            },
        };
        let period = match PayoutPeriod::from_json(&fields[start + 1].1) {
            Some(tv) => tv,
            None => {
                return None;
            },
        };
        let summary = match PayoutSummary::from_json(&fields[start + 2].1) {
            Some(tv) => tv,
            None => {
                return None;
            },
        };
        let payment_method = match &fields[start + 3].1 {
            Json::Str(sv) => sv.clone(),
            _ => {
                return None;
            },
        };
        let payment_address = match &fields[start + 4].1 {
            Json::Str(sv) => sv.clone(),
            _ => {
                return None;
            },
        };
        let status = match PayoutStatus::from_json(&fields[start + 5].1) {
            Some(tv) => tv,
            None => {
                return None;
            },
        };
        let p = PayoutNotificationPayload { payout_id, period, summary, payment_method, payment_address, status };
        proof {
            assert(fields_view(fields@).skip(start as int) =~= p.fieldsv());
        }
        Some(p)
    }

    /// Appends this payload's fields to an object under construction.
    pub fn push_json_fields(&self, fs: &mut Vec<(String, Json)>)
        ensures
            fields_view(final(fs)@) == fields_view(old(fs)@) + self.fieldsv(),
    {
        let ghost orig = fields_view(fs@);
        push_field(fs, "payout_id", Json::Str(self.payout_id.clone()));
        push_field(fs, "period", self.period.to_json());
        push_field(fs, "summary", self.summary.to_json());
        push_field(fs, "payment_method", Json::Str(self.payment_method.clone()));
        push_field(fs, "payment_address", Json::Str(self.payment_address.clone()));
        push_field(fs, "status", self.status.to_json());
        proof {
            assert(fields_view(fs@) =~= orig + self.fieldsv());
        }
    }

    /// Every payload value's field list has the payload's shape.
    pub proof fn lemma_fields_shape(p: Self)
        ensures
            Self::fields_shape(p.fieldsv()),
    {
    PayoutPeriod::lemma_shape(p.period);
    PayoutSummary::lemma_shape(p.summary);
    PayoutStatus::lemma_shape(p.status);
    }
}


/// Wire type `PowChallengePayload`.
#[derive(Debug, Clone, PartialEq)]
pub struct PowChallengePayload {
    pub challenge_id: String,
    pub nonce: String,
    pub difficulty: u32,
    pub deadline: u64,
}

impl PowChallengePayload {
    /// This value's fields in wire order.
    pub open spec fn fieldsv(self) -> Seq<(Seq<char>, JsonV)> {
        seq![
            ("challenge_id"@, JsonV::Str(self.challenge_id@)),
            ("nonce"@, JsonV::Str(self.nonce@)),
            ("difficulty"@, JsonV::UInt(self.difficulty as u64)),
            ("deadline"@, JsonV::UInt(self.deadline)),
        ]
    }


    /// Whether a field list has this payload's wire shape.
    pub open spec fn fields_shape(fs: Seq<(Seq<char>, JsonV)>) -> bool {
        &&& fs.len() == 4
        &&& fs[0].0 == "challenge_id"@
        &&& fs[0].1 is Str
        &&& fs[1].0 == "nonce"@
        &&& fs[1].1 is Str
        &&& fs[2].0 == "difficulty"@
        &&& (fs[2].1 matches JsonV::UInt(nn) && nn <= u32::MAX)
        &&& fs[3].0 == "deadline"@
        &&& fs[3].1 is UInt
    }

    /// Reads the payload back from the tail of an object's fields.
    pub fn from_fields(fields: &Vec<(String, Json)>, start: usize) -> (r: Option<Self>)
        requires
            start <= fields@.len(),
        ensures
            match r {
                Some(p) => fields_view(fields@).skip(start as int) == p.fieldsv(),
                None => !Self::fields_shape(fields_view(fields@).skip(start as int)),
            },
    {
        proof {
            lemma_fields_view(fields@);
        }
        if fields.len() - start != 4 {
            return None;
        }
        if !key_is(&fields[start + 0], "challenge_id") {
            return None;
        }
        if !key_is(&fields[start + 1], "nonce") {
            return None;
        }
        if !key_is(&fields[start + 2], "difficulty") {
            return None;
        }
        if !key_is(&fields[start + 3], "deadline") {
            return None;
        }
        let challenge_id = match &fields[start + 0].1 {
            Json::Str(sv) => sv.clone(),
            _ => {
                return None;
            },
        };
        let nonce = match &fields[start + 1].1 {
            Json::Str(sv) => sv.clone(),
            _ => {
                return None;
            },
        };
        let difficulty = match &fields[start + 2].1 {
            Json::UInt(nv) => {
                if *nv > u32::MAX as u64 {
                    return None;
                }
                *nv as u32
            },
            _ => {
                return None;
            },
        };
        let deadline = match &fields[start + 3].1 {
            Json::UInt(nv) => *nv,
            _ => {
                return None;
            },
        };
        let p = PowChallengePayload { challenge_id, nonce, difficulty, deadline };
        proof {
            assert(fields_view(fields@).skip(start as int) =~= p.fieldsv());
        }
        Some(p)
    }

    /// Appends this payload's fields to an object under construction.
    pub fn push_json_fields(&self, fs: &mut Vec<(String, Json)>)
        ensures
            fields_view(final(fs)@) == fields_view(old(fs)@) + self.fieldsv(),
    {
        let ghost orig = fields_view(fs@);
        push_field(fs, "challenge_id", Json::Str(self.challenge_id.clone()));
        push_field(fs, "nonce", Json::Str(self.nonce.clone()));
        push_field(fs, "difficulty", Json::UInt(self.difficulty as u64));
        push_field(fs, "deadline", Json::UInt(self.deadline));
        proof {
            assert(fields_view(fs@) =~= orig + self.fieldsv());
        }
    }

    /// Every payload value's field list has the payload's shape.
    pub proof fn lemma_fields_shape(p: Self)
        ensures
            Self::fields_shape(p.fieldsv()),
    {

    }
}


/// Wire type `PowResponsePayload`.
#[derive(Debug, Clone, PartialEq)]
pub struct PowResponsePayload {
    pub challenge_id: String,
    pub response: String,
    pub computation_time_ms: u32,
    pub gpu_signature: GpuSignature,
}

impl PowResponsePayload {
    /// This value's fields in wire order.
    pub open spec fn fieldsv(self) -> Seq<(Seq<char>, JsonV)> {
        seq![
            ("challenge_id"@, JsonV::Str(self.challenge_id@)),
            ("response"@, JsonV::Str(self.response@)),
            ("computation_time_ms"@, JsonV::UInt(self.computation_time_ms as u64)),
            ("gpu_signature"@, self.gpu_signature.jsonv()),
        ]
    }


    /// Whether a field list has this payload's wire shape.
    pub open spec fn fields_shape(fs: Seq<(Seq<char>, JsonV)>) -> bool {
        &&& fs.len() == 4
        &&& fs[0].0 == "challenge_id"@
        &&& fs[0].1 is Str
        &&& fs[1].0 == "response"@
        &&& fs[1].1 is Str
        &&& fs[2].0 == "computation_time_ms"@
        &&& (fs[2].1 matches JsonV::UInt(nn) && nn <= u32::MAX)
        &&& fs[3].0 == "gpu_signature"@
        &&& GpuSignature::is_shape(fs[3].1)
    }

    /// Reads the payload back from the tail of an object's fields.
    pub fn from_fields(fields: &Vec<(String, Json)>, start: usize) -> (r: Option<Self>)
        requires
            start <= fields@.len(),
        ensures
            match r {
                Some(p) => fields_view(fields@).skip(start as int) == p.fieldsv(),
                None => !Self::fields_shape(fields_view(fields@).skip(start as int)),
            },
    {
        proof {
            lemma_fields_view(fields@);
        }
        if fields.len() - start != 4 {
            return None;
        }
        if !key_is(&fields[start + 0], "challenge_id") {
            return None;
        }
        if !key_is(&fields[start + 1], "response") {
            return None;
        }
        if !key_is(&fields[start + 2], "computation_time_ms") {
            return None;
        }
        if !key_is(&fields[start + 3], "gpu_signature") {
            return None;
        }
        let challenge_id = match &fields[start + 0].1 {
            Json::Str(sv) => sv.clone(),
            _ => {
                return None;
            },
        };
        let response = match &fields[start + 1].1 {
            Json::Str(sv) => sv.clone(),
            _ => {
                return None;
            },
        };
        let computation_time_ms = match &fields[start + 2].1 {
            Json::UInt(nv) => {
                if *nv > u32::MAX as u64 {
                    return None;
                }
                *nv as u32
            },
            _ => {
                return None;
            },
        };
        let gpu_signature = match GpuSignature::from_json(&fields[start + 3].1) {
            Some(tv) => tv,
            None => {
                return None;
            },
        };
        let p = PowResponsePayload { challenge_id, response, computation_time_ms, gpu_signature };
        proof {
            assert(fields_view(fields@).skip(start as int) =~= p.fieldsv());
        }
        Some(p)
    }

    /// Appends this payload's fields to an object under construction.
    pub fn push_json_fields(&self, fs: &mut Vec<(String, Json)>)
        ensures
            fields_view(final(fs)@) == fields_view(old(fs)@) + self.fieldsv(),
    {
        let ghost orig = fields_view(fs@);
        push_field(fs, "challenge_id", Json::Str(self.challenge_id.clone()));
        push_field(fs, "response", Json::Str(self.response.clone()));
        push_field(fs, "computation_time_ms", Json::UInt(self.computation_time_ms as u64));
        push_field(fs, "gpu_signature", self.gpu_signature.to_json());
        proof {
            assert(fields_view(fs@) =~= orig + self.fieldsv());
        }
    }

    /// Every payload value's field list has the payload's shape.
    pub proof fn lemma_fields_shape(p: Self)
        ensures
            Self::fields_shape(p.fieldsv()),
    {
    GpuSignature::lemma_shape(p.gpu_signature);
    }
}


/// Wire type `ErrorPayload`.
#[derive(Debug, Clone, PartialEq)]
pub struct ErrorPayload {
    pub code: String,
    pub message: String,
    pub context: Option<String>,
    pub recoverable: bool,
}

impl ErrorPayload {
    /// This value's fields in wire order.
    pub open spec fn fieldsv(self) -> Seq<(Seq<char>, JsonV)> {
        seq![
            ("code"@, JsonV::Str(self.code@)),
            ("message"@, JsonV::Str(self.message@)),
            ("context"@, opt_str_jsonv(opt_str_view(self.context))),
            ("recoverable"@, JsonV::Bool(self.recoverable)),
        ]
    }


    /// Whether a field list has this payload's wire shape.
    pub open spec fn fields_shape(fs: Seq<(Seq<char>, JsonV)>) -> bool {
        &&& fs.len() == 4
        &&& fs[0].0 == "code"@
        &&& fs[0].1 is Str
        &&& fs[1].0 == "message"@
        &&& fs[1].1 is Str
        &&& fs[2].0 == "context"@
        &&& (fs[2].1 is Null || fs[2].1 is Str)
        &&& fs[3].0 == "recoverable"@
        &&& fs[3].1 is Bool
    }

    /// Reads the payload back from the tail of an object's fields.
    pub fn from_fields(fields: &Vec<(String, Json)>, start: usize) -> (r: Option<Self>)
        requires
            start <= fields@.len(),
        ensures
            match r {
                Some(p) => fields_view(fields@).skip(start as int) == p.fieldsv(),
                None => !Self::fields_shape(fields_view(fields@).skip(start as int)),
            },
    {
        proof {
            lemma_fields_view(fields@);
        }
        if fields.len() - start != 4 {
            return None;
        }
        if !key_is(&fields[start + 0], "code") {
            return None;
        }
        if !key_is(&fields[start + 1], "message") {
            return None;
        }
        if !key_is(&fields[start + 2], "context") {
            return None;
        }
        if !key_is(&fields[start + 3], "recoverable") {
            return None;
        }
        let code = match &fields[start + 0].1 {
            Json::Str(sv) => sv.clone(),
            _ => {
                return None;
            },
        };
        let message = match &fields[start + 1].1 {
            Json::Str(sv) => sv.clone(),
            _ => {
                return None;
            },
        };
        let context = match opt_str_from_json(&fields[start + 2].1) {
            Some(ov) => ov,
            None => {
                return None;
            },
        };
        let recoverable = match &fields[start + 3].1 {
            Json::Bool(bv) => *bv,
            _ => {
                return None;
            },
        };
        let p = ErrorPayload { code, message, context, recoverable };
        proof {
            assert(fields_view(fields@).skip(start as int) =~= p.fieldsv());
        }
        Some(p)
    }

    /// Appends this payload's fields to an object under construction.
    pub fn push_json_fields(&self, fs: &mut Vec<(String, Json)>)
        ensures
            fields_view(final(fs)@) == fields_view(old(fs)@) + self.fieldsv(),
    {
        let ghost orig = fields_view(fs@);
        push_field(fs, "code", Json::Str(self.code.clone()));
        push_field(fs, "message", Json::Str(self.message.clone()));
        push_field(fs, "context", opt_str_to_json(&self.context));
        push_field(fs, "recoverable", Json::Bool(self.recoverable));
        proof {
            assert(fields_view(fs@) =~= orig + self.fieldsv());
        }
    }

    /// Every payload value's field list has the payload's shape.
    pub proof fn lemma_fields_shape(p: Self)
        ensures
            Self::fields_shape(p.fieldsv()),
    {

    }
}


/// Wire type `StateSyncPayload`.
#[derive(Debug, Clone, PartialEq)]
pub struct StateSyncPayload {
    pub agent_id: String,
    pub last_heartbeat: u64,
    pub active_tasks: Vec<ActiveTaskInfo>,
}

impl StateSyncPayload {
    /// This value's fields in wire order.
    pub open spec fn fieldsv(self) -> Seq<(Seq<char>, JsonV)> {
        seq![
            ("agent_id"@, JsonV::Str(self.agent_id@)),
            ("last_heartbeat"@, JsonV::UInt(self.last_heartbeat)),
            ("active_tasks"@, JsonV::Arr(ActiveTaskInfo::list_jsonv(self.active_tasks@))),
        ]
    }


    /// Whether a field list has this payload's wire shape.
    pub open spec fn fields_shape(fs: Seq<(Seq<char>, JsonV)>) -> bool {
        &&& fs.len() == 3
        &&& fs[0].0 == "agent_id"@
        &&& fs[0].1 is Str
        &&& fs[1].0 == "last_heartbeat"@
        &&& fs[1].1 is UInt
        &&& fs[2].0 == "active_tasks"@
        &&& ActiveTaskInfo::arr_shape(fs[2].1)
    }

    /// Reads the payload back from the tail of an object's fields.
    pub fn from_fields(fields: &Vec<(String, Json)>, start: usize) -> (r: Option<Self>)
        requires
            start <= fields@.len(),
        ensures
            match r {
                Some(p) => fields_view(fields@).skip(start as int) == p.fieldsv(),
                None => !Self::fields_shape(fields_view(fields@).skip(start as int)),
            },
    {
        proof {
            lemma_fields_view(fields@);
        }
        if fields.len() - start != 3 {
            return None;
        }
        if !key_is(&fields[start + 0], "agent_id") {
            return None;
        }
        if !key_is(&fields[start + 1], "last_heartbeat") {
            return None;
        }
        if !key_is(&fields[start + 2], "active_tasks") {
            return None;
        }
        let agent_id = match &fields[start + 0].1 {
            Json::Str(sv) => sv.clone(),
            _ => {
                return None;
            },
        };
        let last_heartbeat = match &fields[start + 1].1 {
            Json::UInt(nv) => *nv,
            _ => {
                return None;
            },
        };
        let active_tasks = match ActiveTaskInfo::vec_from_json(&fields[start + 2].1) {
            Some(vv) => vv,
            None => {
                return None;
            },
        };
        let p = StateSyncPayload { agent_id, last_heartbeat, active_tasks };
        proof {
            assert(fields_view(fields@).skip(start as int) =~= p.fieldsv());
        }
        Some(p)
    }

    /// Appends this payload's fields to an object under construction.
    pub fn push_json_fields(&self, fs: &mut Vec<(String, Json)>)
        ensures
            fields_view(final(fs)@) == fields_view(old(fs)@) + self.fieldsv(),
    {
        let ghost orig = fields_view(fs@);
        push_field(fs, "agent_id", Json::Str(self.agent_id.clone()));
        push_field(fs, "last_heartbeat", Json::UInt(self.last_heartbeat));
        push_field(fs, "active_tasks", ActiveTaskInfo::vec_to_json(&self.active_tasks));
        proof {
            assert(fields_view(fs@) =~= orig + self.fieldsv());
        }
    }

    /// Every payload value's field list has the payload's shape.
    pub proof fn lemma_fields_shape(p: Self)
        ensures
            Self::fields_shape(p.fieldsv()),
    {
    assert forall|q: int| 0 <= q < ActiveTaskInfo::list_jsonv(p.active_tasks@).len() implies ActiveTaskInfo::is_shape(
        #[trigger] ActiveTaskInfo::list_jsonv(p.active_tasks@)[q],
    ) by {
        ActiveTaskInfo::lemma_shape(p.active_tasks@[q]);
    }
    }
}
} // verus!

use crate::error::Error;
use crate::json::{enc_jsonv, json_to_string, parse_json_text, parse_jsonv};
use crate::outside::{now_unix_seconds_raw, uuid_string};

verus! {

// ---------------------------------------------------------------------
// The message envelope
// ---------------------------------------------------------------------

/// The closed set of message kinds, as they are tagged on the wire.
#[derive(Debug, Clone, Copy, PartialEq, Eq, Structural)]
pub enum MessageType {
    AuthChallenge,
    AuthResponse,
    AuthSuccess,
    AgentRegister,
    RegisterAck,
    TaskAssign,
    TaskAccept,
    TaskReject,
    TaskProgress,
    TaskComplete,
    TaskFailed,
    Heartbeat,
    MetricsBatch,
    EarningsRecord,
    PayoutNotification,
    PowChallenge,
    PowResponse,
    Error,
    StateSync,
}

impl MessageType {
    /// The tag this kind carries on the wire.
    pub open spec fn tagv(self) -> Seq<char> {
        match self {
            MessageType::AuthChallenge => "AUTH_CHALLENGE"@,
            MessageType::AuthResponse => "AUTH_RESPONSE"@,
            MessageType::AuthSuccess => "AUTH_SUCCESS"@,
            MessageType::AgentRegister => "AGENT_REGISTER"@,
            MessageType::RegisterAck => "REGISTER_ACK"@,
            MessageType::TaskAssign => "TASK_ASSIGN"@,
            MessageType::TaskAccept => "TASK_ACCEPT"@,
            MessageType::TaskReject => "TASK_REJECT"@,
            MessageType::TaskProgress => "TASK_PROGRESS"@,
            MessageType::TaskComplete => "TASK_COMPLETE"@,
            MessageType::TaskFailed => "TASK_FAILED"@,
            MessageType::Heartbeat => "HEARTBEAT"@,
            MessageType::MetricsBatch => "METRICS_BATCH"@,
            MessageType::EarningsRecord => "EARNINGS_RECORD"@,
            MessageType::PayoutNotification => "PAYOUT_NOTIFICATION"@,
            MessageType::PowChallenge => "POW_CHALLENGE"@,
            MessageType::PowResponse => "POW_RESPONSE"@,
            MessageType::Error => "ERROR"@,
            MessageType::StateSync => "STATE_SYNC"@,
        }
    }

    /// The tag as a string.
    pub fn as_tag(&self) -> (r: &'static str)
        ensures
            r@ == self.tagv(),
    {
        match self {
            MessageType::AuthChallenge => "AUTH_CHALLENGE",
            MessageType::AuthResponse => "AUTH_RESPONSE",
            MessageType::AuthSuccess => "AUTH_SUCCESS",
            MessageType::AgentRegister => "AGENT_REGISTER",
            MessageType::RegisterAck => "REGISTER_ACK",
            MessageType::TaskAssign => "TASK_ASSIGN",
            MessageType::TaskAccept => "TASK_ACCEPT",
            MessageType::TaskReject => "TASK_REJECT",
            MessageType::TaskProgress => "TASK_PROGRESS",
            MessageType::TaskComplete => "TASK_COMPLETE",
            MessageType::TaskFailed => "TASK_FAILED",
            MessageType::Heartbeat => "HEARTBEAT",
            MessageType::MetricsBatch => "METRICS_BATCH",
            MessageType::EarningsRecord => "EARNINGS_RECORD",
            MessageType::PayoutNotification => "PAYOUT_NOTIFICATION",
            MessageType::PowChallenge => "POW_CHALLENGE",
            MessageType::PowResponse => "POW_RESPONSE",
            MessageType::Error => "ERROR",
            MessageType::StateSync => "STATE_SYNC",
        }
    }

    /// Reads a kind back from its tag; accepts exactly the tags.
    pub fn from_tag(s: &str) -> (r: Option<MessageType>)
        ensures
            match r {
                Some(t) => s@ == t.tagv(),
                None => forall|t: MessageType| s@ != #[trigger] t.tagv(),
            },
    {
        if str_eq(s, "AUTH_CHALLENGE") {
            return Some(MessageType::AuthChallenge);
        }
        if str_eq(s, "AUTH_RESPONSE") {
            return Some(MessageType::AuthResponse);
        }
        if str_eq(s, "AUTH_SUCCESS") {
            return Some(MessageType::AuthSuccess);
        }
        if str_eq(s, "AGENT_REGISTER") {
            return Some(MessageType::AgentRegister);
        }
        if str_eq(s, "REGISTER_ACK") {
            return Some(MessageType::RegisterAck);
        }
        if str_eq(s, "TASK_ASSIGN") {
            return Some(MessageType::TaskAssign);
        }
        if str_eq(s, "TASK_ACCEPT") {
            return Some(MessageType::TaskAccept);
        }
        if str_eq(s, "TASK_REJECT") {
            return Some(MessageType::TaskReject);
        }
        if str_eq(s, "TASK_PROGRESS") {
            return Some(MessageType::TaskProgress);
        }
        if str_eq(s, "TASK_COMPLETE") {
            return Some(MessageType::TaskComplete);
        }
        if str_eq(s, "TASK_FAILED") {
            return Some(MessageType::TaskFailed);
        }
        if str_eq(s, "HEARTBEAT") {
            return Some(MessageType::Heartbeat);
        }
        if str_eq(s, "METRICS_BATCH") {
            return Some(MessageType::MetricsBatch);
        }
        if str_eq(s, "EARNINGS_RECORD") {
            return Some(MessageType::EarningsRecord);
        }
        if str_eq(s, "PAYOUT_NOTIFICATION") {
            return Some(MessageType::PayoutNotification);
        }
        if str_eq(s, "POW_CHALLENGE") {
            return Some(MessageType::PowChallenge);
        }
        if str_eq(s, "POW_RESPONSE") {
            return Some(MessageType::PowResponse);
        }
        if str_eq(s, "ERROR") {
            return Some(MessageType::Error);
        }
        if str_eq(s, "STATE_SYNC") {
            return Some(MessageType::StateSync);
        }
        proof {
            assert forall|t: MessageType| s@ != #[trigger] t.tagv() by {}
        }
        None
    }
}

/// A fingerprint that tells the nineteen tags apart.
spec fn tag_fp(s: Seq<char>) -> int {
    s.len() * 1000000 + (s[0] as int) * 1000 + (if s.len() > 6 { s[6] as int } else { 0 })
}

/// Two kinds with the same tag are the same kind.
pub proof fn lemma_tag_injective(a: MessageType, b: MessageType)
    requires
        a.tagv() == b.tagv(),
    ensures
        a == b,
{
    reveal_strlit("AUTH_CHALLENGE");
    reveal_strlit("AUTH_RESPONSE");
    reveal_strlit("AUTH_SUCCESS");
    reveal_strlit("AGENT_REGISTER");
    reveal_strlit("REGISTER_ACK");
    reveal_strlit("TASK_ASSIGN");
    reveal_strlit("TASK_ACCEPT");
    reveal_strlit("TASK_REJECT");
    reveal_strlit("TASK_PROGRESS");
    reveal_strlit("TASK_COMPLETE");
    reveal_strlit("TASK_FAILED");
    reveal_strlit("HEARTBEAT");
    reveal_strlit("METRICS_BATCH");
    reveal_strlit("EARNINGS_RECORD");
    reveal_strlit("PAYOUT_NOTIFICATION");
    reveal_strlit("POW_CHALLENGE");
    reveal_strlit("POW_RESPONSE");
    reveal_strlit("ERROR");
    reveal_strlit("STATE_SYNC");
    assert(tag_fp(MessageType::AuthChallenge.tagv()) == 14065072);
    assert(tag_fp(MessageType::AuthResponse.tagv()) == 13065069);
    assert(tag_fp(MessageType::AuthSuccess.tagv()) == 12065085);
    assert(tag_fp(MessageType::AgentRegister.tagv()) == 14065082);
    assert(tag_fp(MessageType::RegisterAck.tagv()) == 12082069);
    assert(tag_fp(MessageType::TaskAssign.tagv()) == 11084083);
    assert(tag_fp(MessageType::TaskAccept.tagv()) == 11084067);
    assert(tag_fp(MessageType::TaskReject.tagv()) == 11084069);
    assert(tag_fp(MessageType::TaskProgress.tagv()) == 13084082);
    assert(tag_fp(MessageType::TaskComplete.tagv()) == 13084079);
    assert(tag_fp(MessageType::TaskFailed.tagv()) == 11084065);
    assert(tag_fp(MessageType::Heartbeat.tagv()) == 9072069);
    assert(tag_fp(MessageType::MetricsBatch.tagv()) == 13077083);
    assert(tag_fp(MessageType::EarningsRecord.tagv()) == 15069071);
    assert(tag_fp(MessageType::PayoutNotification.tagv()) == 19080095);
    assert(tag_fp(MessageType::PowChallenge.tagv()) == 13080065);
    assert(tag_fp(MessageType::PowResponse.tagv()) == 12080083);
    assert(tag_fp(MessageType::Error.tagv()) == 5069000);
    assert(tag_fp(MessageType::StateSync.tagv()) == 10083083);
    assert(tag_fp(a.tagv()) == tag_fp(b.tagv()));
}

/// One payload of each message kind.
#[derive(Debug, Clone, PartialEq)]
pub enum MessagePayload {
    AuthChallenge(AuthChallengePayload),
    AuthResponse(AuthResponsePayload),
    AuthSuccess(AuthSuccessPayload),
    AgentRegister(AgentRegisterPayload),
    RegisterAck(RegisterAckPayload),
    TaskAssign(TaskAssignPayload),
    TaskAccept(TaskAcceptPayload),
    TaskReject(TaskRejectPayload),
    TaskProgress(TaskProgressPayload),
    TaskComplete(TaskCompletePayload),
    TaskFailed(TaskFailedPayload),
    Heartbeat(HeartbeatPayload),
    MetricsBatch(MetricsBatchPayload),
    EarningsRecord(EarningsRecordPayload),
    PayoutNotification(PayoutNotificationPayload),
    PowChallenge(PowChallengePayload),
    PowResponse(PowResponsePayload),
    Error(ErrorPayload),
    StateSync(StateSyncPayload),
}

/// Whether a field list is the shape of the payload of a given kind.
pub open spec fn payload_shape_for(t: MessageType, fs: Seq<(Seq<char>, JsonV)>) -> bool {
    match t {
        MessageType::AuthChallenge => AuthChallengePayload::fields_shape(fs),
        MessageType::AuthResponse => AuthResponsePayload::fields_shape(fs),
        MessageType::AuthSuccess => AuthSuccessPayload::fields_shape(fs),
        MessageType::AgentRegister => AgentRegisterPayload::fields_shape(fs),
        MessageType::RegisterAck => RegisterAckPayload::fields_shape(fs),
        MessageType::TaskAssign => TaskAssignPayload::fields_shape(fs),
        MessageType::TaskAccept => TaskAcceptPayload::fields_shape(fs),
        MessageType::TaskReject => TaskRejectPayload::fields_shape(fs),
        MessageType::TaskProgress => TaskProgressPayload::fields_shape(fs),
        MessageType::TaskComplete => TaskCompletePayload::fields_shape(fs),
        MessageType::TaskFailed => TaskFailedPayload::fields_shape(fs),
        MessageType::Heartbeat => HeartbeatPayload::fields_shape(fs),
        MessageType::MetricsBatch => MetricsBatchPayload::fields_shape(fs),
        MessageType::EarningsRecord => EarningsRecordPayload::fields_shape(fs),
        MessageType::PayoutNotification => PayoutNotificationPayload::fields_shape(fs),
        MessageType::PowChallenge => PowChallengePayload::fields_shape(fs),
        MessageType::PowResponse => PowResponsePayload::fields_shape(fs),
        MessageType::Error => ErrorPayload::fields_shape(fs),
        MessageType::StateSync => StateSyncPayload::fields_shape(fs),
    }
}

impl MessagePayload {
    /// The kind this payload belongs to.
    pub open spec fn message_type(self) -> MessageType {
        match self {
            MessagePayload::AuthChallenge(_) => MessageType::AuthChallenge,
            MessagePayload::AuthResponse(_) => MessageType::AuthResponse,
            MessagePayload::AuthSuccess(_) => MessageType::AuthSuccess,
            MessagePayload::AgentRegister(_) => MessageType::AgentRegister,
            MessagePayload::RegisterAck(_) => MessageType::RegisterAck,
            MessagePayload::TaskAssign(_) => MessageType::TaskAssign,
            MessagePayload::TaskAccept(_) => MessageType::TaskAccept,
            MessagePayload::TaskReject(_) => MessageType::TaskReject,
            MessagePayload::TaskProgress(_) => MessageType::TaskProgress,
            MessagePayload::TaskComplete(_) => MessageType::TaskComplete,
            MessagePayload::TaskFailed(_) => MessageType::TaskFailed,
            MessagePayload::Heartbeat(_) => MessageType::Heartbeat,
            MessagePayload::MetricsBatch(_) => MessageType::MetricsBatch,
            MessagePayload::EarningsRecord(_) => MessageType::EarningsRecord,
            MessagePayload::PayoutNotification(_) => MessageType::PayoutNotification,
            MessagePayload::PowChallenge(_) => MessageType::PowChallenge,
            MessagePayload::PowResponse(_) => MessageType::PowResponse,
            MessagePayload::Error(_) => MessageType::Error,
            MessagePayload::StateSync(_) => MessageType::StateSync,
        }
    }

    /// This payload's fields in wire order.
    pub open spec fn fieldsv(self) -> Seq<(Seq<char>, JsonV)> {
        match self {
            MessagePayload::AuthChallenge(x) => x.fieldsv(),
            MessagePayload::AuthResponse(x) => x.fieldsv(),
            MessagePayload::AuthSuccess(x) => x.fieldsv(),
            MessagePayload::AgentRegister(x) => x.fieldsv(),
            MessagePayload::RegisterAck(x) => x.fieldsv(),
            MessagePayload::TaskAssign(x) => x.fieldsv(),
            MessagePayload::TaskAccept(x) => x.fieldsv(),
            MessagePayload::TaskReject(x) => x.fieldsv(),
            MessagePayload::TaskProgress(x) => x.fieldsv(),
            MessagePayload::TaskComplete(x) => x.fieldsv(),
            MessagePayload::TaskFailed(x) => x.fieldsv(),
            MessagePayload::Heartbeat(x) => x.fieldsv(),
            MessagePayload::MetricsBatch(x) => x.fieldsv(),
            MessagePayload::EarningsRecord(x) => x.fieldsv(),
            MessagePayload::PayoutNotification(x) => x.fieldsv(),
            MessagePayload::PowChallenge(x) => x.fieldsv(),
            MessagePayload::PowResponse(x) => x.fieldsv(),
            MessagePayload::Error(x) => x.fieldsv(),
            MessagePayload::StateSync(x) => x.fieldsv(),
        }
    }

    /// The kind, executably.
    pub fn get_message_type(&self) -> (r: MessageType)
        ensures
            r == self.message_type(),
    {
        match self {
            MessagePayload::AuthChallenge(_) => MessageType::AuthChallenge,
            MessagePayload::AuthResponse(_) => MessageType::AuthResponse,
            MessagePayload::AuthSuccess(_) => MessageType::AuthSuccess,
            MessagePayload::AgentRegister(_) => MessageType::AgentRegister,
            MessagePayload::RegisterAck(_) => MessageType::RegisterAck,
            MessagePayload::TaskAssign(_) => MessageType::TaskAssign,
            MessagePayload::TaskAccept(_) => MessageType::TaskAccept,
            MessagePayload::TaskReject(_) => MessageType::TaskReject,
            MessagePayload::TaskProgress(_) => MessageType::TaskProgress,
            MessagePayload::TaskComplete(_) => MessageType::TaskComplete,
            MessagePayload::TaskFailed(_) => MessageType::TaskFailed,
            MessagePayload::Heartbeat(_) => MessageType::Heartbeat,
            MessagePayload::MetricsBatch(_) => MessageType::MetricsBatch,
            MessagePayload::EarningsRecord(_) => MessageType::EarningsRecord,
            MessagePayload::PayoutNotification(_) => MessageType::PayoutNotification,
            MessagePayload::PowChallenge(_) => MessageType::PowChallenge,
            MessagePayload::PowResponse(_) => MessageType::PowResponse,
            MessagePayload::Error(_) => MessageType::Error,
            MessagePayload::StateSync(_) => MessageType::StateSync,
        }
    }

    /// Appends this payload's fields to an object under construction.
    pub fn push_json_fields(&self, fs: &mut Vec<(String, Json)>)
        ensures
            fields_view(final(fs)@) == fields_view(old(fs)@) + self.fieldsv(),
    {
        match self {
            MessagePayload::AuthChallenge(x) => x.push_json_fields(fs),
            MessagePayload::AuthResponse(x) => x.push_json_fields(fs),
            MessagePayload::AuthSuccess(x) => x.push_json_fields(fs),
            MessagePayload::AgentRegister(x) => x.push_json_fields(fs),
            MessagePayload::RegisterAck(x) => x.push_json_fields(fs),
            MessagePayload::TaskAssign(x) => x.push_json_fields(fs),
            MessagePayload::TaskAccept(x) => x.push_json_fields(fs),
            MessagePayload::TaskReject(x) => x.push_json_fields(fs),
            MessagePayload::TaskProgress(x) => x.push_json_fields(fs),
            MessagePayload::TaskComplete(x) => x.push_json_fields(fs),
            MessagePayload::TaskFailed(x) => x.push_json_fields(fs),
            MessagePayload::Heartbeat(x) => x.push_json_fields(fs),
            MessagePayload::MetricsBatch(x) => x.push_json_fields(fs),
            MessagePayload::EarningsRecord(x) => x.push_json_fields(fs),
            MessagePayload::PayoutNotification(x) => x.push_json_fields(fs),
            MessagePayload::PowChallenge(x) => x.push_json_fields(fs),
            MessagePayload::PowResponse(x) => x.push_json_fields(fs),
            MessagePayload::Error(x) => x.push_json_fields(fs),
            MessagePayload::StateSync(x) => x.push_json_fields(fs),
        }
    }

    /// Reads the payload of a given kind from the tail of an object's
    /// fields; accepts exactly that kind's shape.
    pub fn from_fields_typed(t: MessageType, fields: &Vec<(String, Json)>, start: usize) -> (r:
        Option<MessagePayload>)
        requires
            start <= fields@.len(),
        ensures
            match r {
                Some(p) => p.message_type() == t && fields_view(fields@).skip(start as int)
                    == p.fieldsv(),
                None => !payload_shape_for(t, fields_view(fields@).skip(start as int)),
            },
    {
        match t {
            MessageType::AuthChallenge => match AuthChallengePayload::from_fields(fields, start) {
                Some(x) => Some(MessagePayload::AuthChallenge(x)),
                None => None,
            },
            MessageType::AuthResponse => match AuthResponsePayload::from_fields(fields, start) {
                Some(x) => Some(MessagePayload::AuthResponse(x)),
                None => None,
            },
            MessageType::AuthSuccess => match AuthSuccessPayload::from_fields(fields, start) {
                Some(x) => Some(MessagePayload::AuthSuccess(x)),
                None => None,
            },
            MessageType::AgentRegister => match AgentRegisterPayload::from_fields(fields, start) {
                Some(x) => Some(MessagePayload::AgentRegister(x)),
                None => None,
            },
            MessageType::RegisterAck => match RegisterAckPayload::from_fields(fields, start) {
                Some(x) => Some(MessagePayload::RegisterAck(x)),
                None => None,
            },
            MessageType::TaskAssign => match TaskAssignPayload::from_fields(fields, start) {
                Some(x) => Some(MessagePayload::TaskAssign(x)),
                None => None,
            },
            MessageType::TaskAccept => match TaskAcceptPayload::from_fields(fields, start) {
                Some(x) => Some(MessagePayload::TaskAccept(x)),
                None => None,
            },
            MessageType::TaskReject => match TaskRejectPayload::from_fields(fields, start) {
                Some(x) => Some(MessagePayload::TaskReject(x)),
                None => None,
            },
            MessageType::TaskProgress => match TaskProgressPayload::from_fields(fields, start) {
                Some(x) => Some(MessagePayload::TaskProgress(x)),
                None => None,
            },
            MessageType::TaskComplete => match TaskCompletePayload::from_fields(fields, start) {
                Some(x) => Some(MessagePayload::TaskComplete(x)),
                None => None,
            },
            MessageType::TaskFailed => match TaskFailedPayload::from_fields(fields, start) {
                Some(x) => Some(MessagePayload::TaskFailed(x)),
                None => None,
            },
            MessageType::Heartbeat => match HeartbeatPayload::from_fields(fields, start) {
                Some(x) => Some(MessagePayload::Heartbeat(x)),
                None => None,
            },
            MessageType::MetricsBatch => match MetricsBatchPayload::from_fields(fields, start) {
                Some(x) => Some(MessagePayload::MetricsBatch(x)),
                None => None,
            },
            MessageType::EarningsRecord => match EarningsRecordPayload::from_fields(
                fields,
                start,
            ) {
                Some(x) => Some(MessagePayload::EarningsRecord(x)),
                None => None,
            },
            MessageType::PayoutNotification => match PayoutNotificationPayload::from_fields(
                fields,
                start,
            ) {
                Some(x) => Some(MessagePayload::PayoutNotification(x)),
                None => None,
            },
            MessageType::PowChallenge => match PowChallengePayload::from_fields(fields, start) {
                Some(x) => Some(MessagePayload::PowChallenge(x)),
                None => None,
            },
            MessageType::PowResponse => match PowResponsePayload::from_fields(fields, start) {
                Some(x) => Some(MessagePayload::PowResponse(x)),
                None => None,
            },
            MessageType::Error => match ErrorPayload::from_fields(fields, start) {
                Some(x) => Some(MessagePayload::Error(x)),
                None => None,
            },
            MessageType::StateSync => match StateSyncPayload::from_fields(fields, start) {
                Some(x) => Some(MessagePayload::StateSync(x)),
                None => None,
            },
        }
    }
}

/// Every payload's field list has the shape of its own kind.
pub proof fn lemma_payload_shape(p: MessagePayload)
    ensures
        payload_shape_for(p.message_type(), p.fieldsv()),
{
    match p {
        MessagePayload::AuthChallenge(x) => AuthChallengePayload::lemma_fields_shape(x),
        MessagePayload::AuthResponse(x) => AuthResponsePayload::lemma_fields_shape(x),
        MessagePayload::AuthSuccess(x) => AuthSuccessPayload::lemma_fields_shape(x),
        MessagePayload::AgentRegister(x) => AgentRegisterPayload::lemma_fields_shape(x),
        MessagePayload::RegisterAck(x) => RegisterAckPayload::lemma_fields_shape(x),
        MessagePayload::TaskAssign(x) => TaskAssignPayload::lemma_fields_shape(x),
        MessagePayload::TaskAccept(x) => TaskAcceptPayload::lemma_fields_shape(x),
        MessagePayload::TaskReject(x) => TaskRejectPayload::lemma_fields_shape(x),
        MessagePayload::TaskProgress(x) => TaskProgressPayload::lemma_fields_shape(x),
        MessagePayload::TaskComplete(x) => TaskCompletePayload::lemma_fields_shape(x),
        MessagePayload::TaskFailed(x) => TaskFailedPayload::lemma_fields_shape(x),
        MessagePayload::Heartbeat(x) => HeartbeatPayload::lemma_fields_shape(x),
        MessagePayload::MetricsBatch(x) => MetricsBatchPayload::lemma_fields_shape(x),
        MessagePayload::EarningsRecord(x) => EarningsRecordPayload::lemma_fields_shape(x),
        MessagePayload::PayoutNotification(x) => PayoutNotificationPayload::lemma_fields_shape(x),
        MessagePayload::PowChallenge(x) => PowChallengePayload::lemma_fields_shape(x),
        MessagePayload::PowResponse(x) => PowResponsePayload::lemma_fields_shape(x),
        MessagePayload::Error(x) => ErrorPayload::lemma_fields_shape(x),
        MessagePayload::StateSync(x) => StateSyncPayload::lemma_fields_shape(x),
    }
}

/// One wire message: envelope plus payload.
#[derive(Debug, Clone, PartialEq)]
pub struct Message {
    pub message_id: String,
    pub timestamp: u64,
    pub payload: MessagePayload,
}

/// The JSON value a message stands for: the envelope fields, then the
/// payload's fields, flattened into one object.
pub open spec fn message_jsonv(m: Message) -> JsonV {
    JsonV::Obj(
        seq![
            ("message_id"@, JsonV::Str(m.message_id@)),
            ("timestamp"@, JsonV::UInt(m.timestamp)),
            ("type"@, JsonV::Str(m.payload.message_type().tagv())),
        ] + m.payload.fieldsv(),
    )
}

/// The canonical text of a message.
pub open spec fn spec_message_text(m: Message) -> Seq<char> {
    enc_jsonv(message_jsonv(m))
}

} // verus!

verus! {

impl Message {
    /// The kind of this message.
    pub fn message_type(&self) -> (r: MessageType)
        ensures
            r == self.payload.message_type(),
    {
        self.payload.get_message_type()
    }

    /// A fresh message around a payload: a new message id — always the
    /// 36 characters of a hyphenated UUID — and the current time.
    pub fn new(payload: MessagePayload) -> (m: Message)
        ensures
            m.payload == payload,
            m.message_id@.len() == 36,
    {
        let now = now_unix_seconds_raw();
        let timestamp: u64 = if now < 0 {
            0
        } else {
            now as u64
        };
        Message { message_id: uuid_string(), timestamp, payload }
    }

    /// Serializes the message to its canonical wire text.
    pub fn to_json(&self) -> (r: Result<String, Error>)
        ensures
            r matches Ok(s) && s@ == spec_message_text(*self),
    {
        let mut fs: Vec<(String, Json)> = Vec::new();
        proof {
            assert(fields_view(fs@) == Seq::<(Seq<char>, JsonV)>::empty());
        }
        push_field(&mut fs, "message_id", Json::Str(self.message_id.clone()));
        push_field(&mut fs, "timestamp", Json::UInt(self.timestamp));
        let tag = self.payload.get_message_type().as_tag();
        push_field(&mut fs, "type", Json::Str(tag.to_owned()));
        self.payload.push_json_fields(&mut fs);
        proof {
            assert(fields_view(fs@) =~= seq![
                ("message_id"@, JsonV::Str(self.message_id@)),
                ("timestamp"@, JsonV::UInt(self.timestamp)),
                ("type"@, JsonV::Str(self.payload.message_type().tagv())),
            ] + self.payload.fieldsv());
        }
        let j = Json::Obj(fs);
        proof {
            assert(j@ == message_jsonv(*self));
        }
        Ok(json_to_string(&j))
    }

    /// Parses one canonical wire text back into a message. Succeeds on
    /// exactly the texts that parse as the canonical form of a message.
    pub fn from_json(s: &str) -> (r: Result<Message, Error>)
        ensures
            match r {
                Ok(m) => parse_jsonv(s@) == Some((message_jsonv(m), s@.len() as int)),
                Err(e) => e is Serialization && (forall|m2: Message|
                    parse_jsonv(s@) != Some((message_jsonv(m2), s@.len() as int))),
            },
    {
        let j = match parse_json_text(s) {
            Some(j) => j,
            None => {
                return Err(Error::Serialization("not a canonical message text".to_owned()));
            },
        };
        let fields = match &j {
            Json::Obj(fsx) => fsx,
            _ => {
                proof {
                    assert forall|m2: Message|
                        parse_jsonv(s@) != Some((message_jsonv(m2), s@.len() as int)) by {}
                }
                return Err(Error::Serialization("message is not an object".to_owned()));
            },
        };
        proof {
            lemma_fields_view(fields@);
        }
        let ghost fv = fields_view(fields@);
        if fields.len() < 3 {
            proof {
                assert forall|m2: Message|
                    parse_jsonv(s@) != Some((message_jsonv(m2), s@.len() as int)) by {
                    if parse_jsonv(s@) == Some((message_jsonv(m2), s@.len() as int)) {
                        assert(message_jsonv(m2)->Obj_0.len() >= 3);
                    }
                }
            }
            return Err(Error::Serialization("message too short".to_owned()));
        }
        if !key_is(&fields[0], "message_id") || !key_is(&fields[1], "timestamp") || !key_is(
            &fields[2],
            "type",
        ) {
            proof {
                assert forall|m2: Message|
                    parse_jsonv(s@) != Some((message_jsonv(m2), s@.len() as int)) by {
                    if parse_jsonv(s@) == Some((message_jsonv(m2), s@.len() as int)) {
                        assert(message_jsonv(m2)->Obj_0[0].0 == "message_id"@);
                        assert(message_jsonv(m2)->Obj_0[1].0 == "timestamp"@);
                        assert(message_jsonv(m2)->Obj_0[2].0 == "type"@);
                    }
                }
            }
            return Err(Error::Serialization("bad envelope keys".to_owned()));
        }
        let message_id = match &fields[0].1 {
            Json::Str(sv) => sv.clone(),
            _ => {
                proof {
                    assert forall|m2: Message|
                        parse_jsonv(s@) != Some((message_jsonv(m2), s@.len() as int)) by {
                        if parse_jsonv(s@) == Some((message_jsonv(m2), s@.len() as int)) {
                            assert(message_jsonv(m2)->Obj_0[0].1 is Str);
                        }
                    }
                }
                return Err(Error::Serialization("bad message id".to_owned()));
            },
        };
        let timestamp = match &fields[1].1 {
            Json::UInt(nv) => *nv,
            _ => {
                proof {
                    assert forall|m2: Message|
                        parse_jsonv(s@) != Some((message_jsonv(m2), s@.len() as int)) by {
                        if parse_jsonv(s@) == Some((message_jsonv(m2), s@.len() as int)) {
                            assert(message_jsonv(m2)->Obj_0[1].1 is UInt);
                        }
                    }
                }
                return Err(Error::Serialization("bad timestamp".to_owned()));
            },
        };
        let tag_string = match &fields[2].1 {
            Json::Str(sv) => sv,
            _ => {
                proof {
                    assert forall|m2: Message|
                        parse_jsonv(s@) != Some((message_jsonv(m2), s@.len() as int)) by {
                        if parse_jsonv(s@) == Some((message_jsonv(m2), s@.len() as int)) {
                            assert(message_jsonv(m2)->Obj_0[2].1 is Str);
                        }
                    }
                }
                return Err(Error::Serialization("bad type tag".to_owned()));
            },
        };
        let mtype = match MessageType::from_tag(tag_string.as_str()) {
            Some(t) => t,
            None => {
                proof {
                    assert forall|m2: Message|
                        parse_jsonv(s@) != Some((message_jsonv(m2), s@.len() as int)) by {
                        if parse_jsonv(s@) == Some((message_jsonv(m2), s@.len() as int)) {
                            assert(message_jsonv(m2)->Obj_0[2].1 == JsonV::Str(
                                m2.payload.message_type().tagv(),
                            ));
                            assert(tag_string@ == m2.payload.message_type().tagv());
                        }
                    }
                }
                return Err(Error::Serialization("unknown type tag".to_owned()));
            },
        };
        let payload = match MessagePayload::from_fields_typed(mtype, fields, 3) {
            Some(p) => p,
            None => {
                proof {
                    assert forall|m2: Message|
                        parse_jsonv(s@) != Some((message_jsonv(m2), s@.len() as int)) by {
                        if parse_jsonv(s@) == Some((message_jsonv(m2), s@.len() as int)) {
                            let mfv = message_jsonv(m2)->Obj_0;
                            assert(fv == mfv);
                            assert(mfv[2].1 == JsonV::Str(m2.payload.message_type().tagv()));
                            assert(tag_string@ == m2.payload.message_type().tagv());
                            lemma_tag_injective(mtype, m2.payload.message_type());
                            assert(mfv.skip(3) =~= m2.payload.fieldsv());
                            lemma_payload_shape(m2.payload);
                            assert(payload_shape_for(mtype, fv.skip(3)));
                        }
                    }
                }
                return Err(Error::Serialization("bad payload".to_owned()));
            },
        };
        let m = Message { message_id, timestamp, payload };
        proof {
            assert(fv =~= seq![
                ("message_id"@, JsonV::Str(m.message_id@)),
                ("timestamp"@, JsonV::UInt(m.timestamp)),
                ("type"@, JsonV::Str(m.payload.message_type().tagv())),
            ] + m.payload.fieldsv());
            assert(j@ == message_jsonv(m));
        }
        Ok(m)
    }
}

/// The canonical text of a message parses back to its own JSON value;
/// so an encoded message is always decodable.
pub proof fn lemma_encoded_text_parses(m: Message)
    ensures
        parse_jsonv(spec_message_text(m)) == Some(
            (message_jsonv(m), spec_message_text(m).len() as int),
        ),
{
    crate::json::lemma_parse_enc(message_jsonv(m), Seq::empty());
    assert(enc_jsonv(message_jsonv(m)) + Seq::<char>::empty() =~= spec_message_text(m));
}

/// Decoding an encoded message gives the message back: the decoder can
/// only have returned a message with the same id, the same timestamp,
/// the same kind, and the same payload fields.
pub proof fn lemma_message_round_trip(m: Message, m2: Message)
    requires
        parse_jsonv(spec_message_text(m)) == Some(
            (message_jsonv(m2), spec_message_text(m).len() as int),
        ),
    ensures
        m2.message_id@ == m.message_id@,
        m2.timestamp == m.timestamp,
        m2.payload.message_type() == m.payload.message_type(),
        m2.payload.fieldsv() == m.payload.fieldsv(),
{
    lemma_encoded_text_parses(m);
    assert(message_jsonv(m2) == message_jsonv(m));
    let fa = message_jsonv(m)->Obj_0;
    let fb = message_jsonv(m2)->Obj_0;
    assert(fa == fb);
    assert(fa[0].1 == JsonV::Str(m.message_id@));
    assert(fb[0].1 == JsonV::Str(m2.message_id@));
    assert(fa[1].1 == JsonV::UInt(m.timestamp));
    assert(fb[1].1 == JsonV::UInt(m2.timestamp));
    assert(fa[2].1 == JsonV::Str(m.payload.message_type().tagv()));
    assert(fb[2].1 == JsonV::Str(m2.payload.message_type().tagv()));
    lemma_tag_injective(m.payload.message_type(), m2.payload.message_type());
    assert(fa.skip(3) =~= m.payload.fieldsv());
    assert(fb.skip(3) =~= m2.payload.fieldsv());
}

// ---------------------------------------------------------------------
// Builders
// ---------------------------------------------------------------------

/// A fresh authentication response message.
pub fn create_auth_response(agent_id: String, signature: String, public_key: String) -> (m:
    Message)
    ensures
        m.payload == MessagePayload::AuthResponse(
            AuthResponsePayload { agent_id, signature, public_key },
        ),
        m.message_id@.len() == 36,
{
    Message::new(
        MessagePayload::AuthResponse(AuthResponsePayload { agent_id, signature, public_key }),
    )
}

/// A fresh agent registration message.
pub fn create_agent_register(
    agent_id: String,
    hardware: HardwareInfo,
    capabilities: Capabilities,
    location: Location,
    availability: Availability,
) -> (m: Message)
    ensures
        m.payload == MessagePayload::AgentRegister(
            AgentRegisterPayload { agent_id, hardware, capabilities, location, availability },
        ),
        m.message_id@.len() == 36,
{
    Message::new(
        MessagePayload::AgentRegister(
            AgentRegisterPayload { agent_id, hardware, capabilities, location, availability },
        ),
    )
}

/// A fresh heartbeat message carrying current status and telemetry.
pub fn create_heartbeat(
    agent_id: String,
    status: AgentStatus,
    current_task_id: Option<String>,
    gpu_status: Vec<GPUStatus>,
    uptime_sec: u64,
) -> (m: Message)
    ensures
        m.payload matches MessagePayload::Heartbeat(p) && p.agent_id == agent_id && p.status
            == status && p.current_task_id == current_task_id && p.gpu_status == gpu_status
            && p.uptime_sec == uptime_sec,
        m.message_id@.len() == 36,
{
    let now = now_unix_seconds_raw();
    let timestamp: u64 = if now < 0 {
        0
    } else {
        now as u64
    };
    Message::new(
        MessagePayload::Heartbeat(
            HeartbeatPayload {
                agent_id,
                status,
                current_task_id,
                gpu_status,
                uptime_sec,
                timestamp,
            },
        ),
    )
}

/// A fresh task acceptance message; the estimated completion time is
/// the current time plus the estimated duration.
pub fn create_task_accept(
    task_id: String,
    agent_id: String,
    gpu_allocated: u32,
    estimated_duration_sec: u32,
) -> (m: Message)
    ensures
        m.payload matches MessagePayload::TaskAccept(p) && p.task_id == task_id && p.agent_id
            == agent_id && p.gpu_allocated == gpu_allocated,
        m.message_id@.len() == 36,
{
    let now = now_unix_seconds_raw();
    let now_u: u64 = if now < 0 {
        0
    } else {
        now as u64
    };
    let estimated_completion = now_u.saturating_add(estimated_duration_sec as u64);
    Message::new(
        MessagePayload::TaskAccept(
            TaskAcceptPayload { task_id, agent_id, gpu_allocated, estimated_completion },
        ),
    )
}

/// A fresh task rejection message.
pub fn create_task_reject(task_id: String, reason: String, details: String) -> (m: Message)
    ensures
        m.payload == MessagePayload::TaskReject(TaskRejectPayload { task_id, reason, details }),
        m.message_id@.len() == 36,
{
    Message::new(MessagePayload::TaskReject(TaskRejectPayload { task_id, reason, details }))
}

} // verus!

verus! {

/// What the platform answers a plain registration request with.
#[derive(Debug, Clone, PartialEq)]
pub struct RegistrationResponse {
    pub agent_id: String,
    pub message: String,
}

} // verus!
