use vstd::prelude::*;

verus! {

/// A JSON number as the parser hands it over: a non-negative integer, a
/// negative integer, or any other number kept by its decimal text.
pub enum JsonNumber {
    PosInt(u64),
    NegInt(i64),
    Float(String),
}

/// The mathematical view of a `JsonNumber`.
pub enum NumberSpec {
    PosInt(u64),
    NegInt(i64),
    Float(Seq<char>),
}

/// A JSON document.
pub enum JsonValue {
    Null,
    Bool(bool),
    Number(JsonNumber),
    Str(String),
    Array(Vec<JsonValue>),
    Object(Vec<(String, JsonValue)>),
}

/// The mathematical view of a `JsonValue`: strings become character sequences.
pub enum Json {
    Null,
    Bool(bool),
    Number(NumberSpec),
    Str(Seq<char>),
    Array(Seq<Json>),
    Object(Seq<(Seq<char>, Json)>),
}

impl JsonNumber {
    pub open spec fn spec_view(&self) -> NumberSpec {
        match self {
            JsonNumber::PosInt(u) => NumberSpec::PosInt(*u),
            JsonNumber::NegInt(i) => NumberSpec::NegInt(*i),
            JsonNumber::Float(t) => NumberSpec::Float(t@),
        }
    }
}

impl View for JsonNumber {
    type V = NumberSpec;

    open spec fn view(&self) -> NumberSpec {
        self.spec_view()
    }
}

pub open spec fn items_view(s: Seq<JsonValue>) -> Seq<Json>
    decreases s,
{
    if s.len() == 0 {
        Seq::empty()
    } else {
        items_view(s.drop_last()).push(json_view(s.last()))
    }
}

pub open spec fn entries_view(s: Seq<(String, JsonValue)>) -> Seq<(Seq<char>, Json)>
    decreases s,
{
    if s.len() == 0 {
        Seq::empty()
    } else {
        entries_view(s.drop_last()).push((s.last().0@, json_view(s.last().1)))
    }
}

pub open spec fn json_view(v: JsonValue) -> Json
    decreases v,
{
    match v {
        JsonValue::Null => Json::Null,
        JsonValue::Bool(b) => Json::Bool(b),
        JsonValue::Number(n) => Json::Number(n@),
        JsonValue::Str(s) => Json::Str(s@),
        JsonValue::Array(a) => Json::Array(items_view(a@)),
        JsonValue::Object(o) => Json::Object(entries_view(o@)),
    }
}

impl View for JsonValue {
    type V = Json;

    open spec fn view(&self) -> Json {
        json_view(*self)
    }
}


pub broadcast proof fn lemma_items_view_len(s: Seq<JsonValue>)
    ensures
        #[trigger] items_view(s).len() == s.len(),
    decreases s.len(),
{
    if s.len() > 0 {
        lemma_items_view_len(s.drop_last());
    }
}

pub broadcast proof fn lemma_items_view_index(s: Seq<JsonValue>, i: int)
    requires
        0 <= i < s.len(),
    ensures
        #[trigger] items_view(s)[i] == json_view(s[i]),
    decreases s.len(),
{
    lemma_items_view_len(s.drop_last());
    if i < s.len() - 1 {
        lemma_items_view_index(s.drop_last(), i);
    }
}

pub broadcast proof fn lemma_entries_view_len(s: Seq<(String, JsonValue)>)
    ensures
        #[trigger] entries_view(s).len() == s.len(),
    decreases s.len(),
{
    if s.len() > 0 {
        lemma_entries_view_len(s.drop_last());
    }
}

pub broadcast proof fn lemma_entries_view_index(s: Seq<(String, JsonValue)>, i: int)
    requires
        0 <= i < s.len(),
    ensures
        #[trigger] entries_view(s)[i] == (s[i].0@, json_view(s[i].1)),
    decreases s.len(),
{
    lemma_entries_view_len(s.drop_last());
    if i < s.len() - 1 {
        lemma_entries_view_index(s.drop_last(), i);
    }
}

pub broadcast group group_json_view {
    lemma_items_view_len,
    lemma_items_view_index,
    lemma_entries_view_len,
    lemma_entries_view_index,
}

/// The index of the first entry with `key`.
pub open spec fn entries_pos(e: Seq<(Seq<char>, Json)>, key: Seq<char>) -> Option<int>
    decreases e.len(),
{
    if e.len() == 0 {
        None
    } else if e[0].0 == key {
        Some(0)
    } else {
        match entries_pos(e.drop_first(), key) {
            Some(i) => Some(i + 1),
            None => None,
        }
    }
}

pub proof fn lemma_entries_pos(e: Seq<(Seq<char>, Json)>, key: Seq<char>)
    ensures
        entries_pos(e, key) matches Some(i) ==> 0 <= i < e.len() && e[i].0 == key && forall|
            j: int,
        |
            0 <= j < i ==> #[trigger] e[j].0 != key,
        entries_pos(e, key) is None ==> forall|j: int| 0 <= j < e.len() ==> #[trigger] e[j].0 != key,
    decreases e.len(),
{
    if e.len() > 0 {
        lemma_entries_pos(e.drop_first(), key);
        assert forall|j: int| 1 <= j < e.len() implies #[trigger] e[j] == e.drop_first()[j - 1] by {}
    }
}

/// Under the first-match conditions, the position is `i`.
pub proof fn lemma_entries_pos_at(e: Seq<(Seq<char>, Json)>, key: Seq<char>, i: int)
    requires
        0 <= i <= e.len(),
        forall|j: int| 0 <= j < i ==> #[trigger] e[j].0 != key,
    ensures
        i < e.len() && e[i].0 == key ==> entries_pos(e, key) == Some(i),
        i == e.len() ==> entries_pos(e, key) is None,
{
    lemma_entries_pos(e, key);
}

/// The value stored under `key` in the entries of an object: the first entry
/// with that key, as a map with unique keys has it.
pub open spec fn entries_lookup(e: Seq<(Seq<char>, Json)>, key: Seq<char>) -> Option<Json> {
    match entries_pos(e, key) {
        Some(i) => Some(e[i].1),
        None => None,
    }
}

/// `map.insert(key, value)`: the entry with `key` takes the new value, or a
/// new entry is added at the end.
pub open spec fn entries_insert(e: Seq<(Seq<char>, Json)>, key: Seq<char>, value: Json) -> Seq<
    (Seq<char>, Json),
> {
    match entries_pos(e, key) {
        Some(i) => e.update(i, (key, value)),
        None => e.push((key, value)),
    }
}

impl Json {
    /// `value.get(key)`: the member of an object, nothing for other values.
    pub open spec fn get(self, key: Seq<char>) -> Option<Json> {
        match self {
            Json::Object(e) => entries_lookup(e, key),
            _ => None,
        }
    }

    pub open spec fn as_str(self) -> Option<Seq<char>> {
        match self {
            Json::Str(s) => Some(s),
            _ => None,
        }
    }

    pub open spec fn as_array(self) -> Option<Seq<Json>> {
        match self {
            Json::Array(a) => Some(a),
            _ => None,
        }
    }

    pub open spec fn as_u64(self) -> Option<u64> {
        match self {
            Json::Number(NumberSpec::PosInt(u)) => Some(u),
            _ => None,
        }
    }

    pub open spec fn as_bool(self) -> Option<bool> {
        match self {
            Json::Bool(b) => Some(b),
            _ => None,
        }
    }

    pub open spec fn is_object(self) -> bool {
        self is Object
    }

    /// `value.get(key).and_then(Value::as_str)`
    pub open spec fn str_at(self, key: Seq<char>) -> Option<Seq<char>> {
        match self.get(key) {
            Some(v) => v.as_str(),
            None => None,
        }
    }
}

pub open spec fn opt_view(o: Option<JsonValue>) -> Option<Json> {
    match o {
        Some(v) => Some(v@),
        None => None,
    }
}

pub open spec fn opt_ref_view(o: Option<&JsonValue>) -> Option<Json> {
    match o {
        Some(v) => Some(v@),
        None => None,
    }
}

impl JsonValue {
    /// A copy of the document.
    #[verifier::loop_isolation(false)]
    pub fn deep_clone(&self) -> (r: JsonValue)
        ensures
            r@ == self@,
        decreases self,
    {
        broadcast use group_json_view;

        match self {
            JsonValue::Null => JsonValue::Null,
            JsonValue::Bool(b) => JsonValue::Bool(*b),
            JsonValue::Number(n) => JsonValue::Number(
                match n {
                    JsonNumber::PosInt(u) => JsonNumber::PosInt(*u),
                    JsonNumber::NegInt(i) => JsonNumber::NegInt(*i),
                    JsonNumber::Float(t) => JsonNumber::Float(t.clone()),
                },
            ),
            JsonValue::Str(s) => JsonValue::Str(s.clone()),
            JsonValue::Array(a) => {
                let mut out: Vec<JsonValue> = Vec::new();
                let mut i: usize = 0;
                while i < a.len()
                    invariant
                        i <= a.len(),
                        out.len() == i,
                        forall|j: int| 0 <= j < i ==> #[trigger] out@[j]@ == a@[j]@,
                    decreases a.len() - i,
                {
                    assert(decreases_to!(self => a@[i as int]));
                    let c = a[i].deep_clone();
                    out.push(c);
                    i = i + 1;
                }
                assert forall|j: int| 0 <= j < a@.len() implies #[trigger] items_view(out@)[j]
                    == items_view(a@)[j] by {
                    assert(out@[j]@ == a@[j]@);
                }
                assert(items_view(out@) =~= items_view(a@));
                JsonValue::Array(out)
            },
            JsonValue::Object(o) => {
                let mut out: Vec<(String, JsonValue)> = Vec::new();
                let mut i: usize = 0;
                while i < o.len()
                    invariant
                        i <= o.len(),
                        out.len() == i,
                        forall|j: int|
                            0 <= j < i ==> #[trigger] out@[j].0@ == o@[j].0@ && out@[j].1@
                                == o@[j].1@,
                    decreases o.len() - i,
                {
                    assert(decreases_to!(self => o@[i as int].1));
                    let c = o[i].1.deep_clone();
                    out.push((o[i].0.clone(), c));
                    i = i + 1;
                }
                assert(entries_view(out@) =~= entries_view(o@));
                JsonValue::Object(out)
            },
        }
    }

    /// The member of an object under `key`.
    #[verifier::loop_isolation(false)]
    pub fn get(&self, key: &str) -> (r: Option<&JsonValue>)
        ensures
            opt_ref_view(r) == self@.get(key@),
    {
        broadcast use group_json_view;

        match self {
            JsonValue::Object(o) => {
                let ghost e = entries_view(o@);
                let mut i: usize = 0;
                while i < o.len()
                    invariant
                        i <= o.len(),
                        e.len() == o@.len(),
                        forall|j: int| 0 <= j < i ==> #[trigger] e[j].0 != key@,
                    decreases o.len() - i,
                {
                    assert(e[i as int] == (o@[i as int].0@, o@[i as int].1@));
                    if crate::text::str_eq(o[i].0.as_str(), key) {
                        proof {
                            lemma_entries_pos_at(e, key@, i as int);
                        }
                        return Some(&o[i].1);
                    }
                    i = i + 1;
                }
                proof {
                    lemma_entries_pos_at(e, key@, i as int);
                }
                None
            },
            _ => None,
        }
    }

    pub fn as_str(&self) -> (r: Option<&str>)
        ensures
            r matches Some(s) ==> self@.as_str() == Some(s@),
            r is None ==> self@.as_str() is None,
    {
        match self {
            JsonValue::Str(s) => Some(s.as_str()),
            _ => None,
        }
    }

    pub fn as_array(&self) -> (r: Option<&Vec<JsonValue>>)
        ensures
            r matches Some(a) ==> self@.as_array() == Some(items_view(a@)),
            r is None ==> self@.as_array() is None,
    {
        match self {
            JsonValue::Array(a) => Some(a),
            _ => None,
        }
    }

    pub fn as_u64(&self) -> (r: Option<u64>)
        ensures
            r == self@.as_u64(),
    {
        match self {
            JsonValue::Number(JsonNumber::PosInt(u)) => Some(*u),
            _ => None,
        }
    }

    pub fn as_bool(&self) -> (r: Option<bool>)
        ensures
            r == self@.as_bool(),
    {
        match self {
            JsonValue::Bool(b) => Some(*b),
            _ => None,
        }
    }

    pub fn is_object(&self) -> (r: bool)
        ensures
            r == self@.is_object(),
    {
        match self {
            JsonValue::Object(_) => true,
            _ => false,
        }
    }

    /// The string member of an object under `key`.
    pub fn str_at(&self, key: &str) -> (r: Option<&str>)
        ensures
            r matches Some(s) ==> self@.str_at(key@) == Some(s@),
            r is None ==> self@.str_at(key@) is None,
    {
        match self.get(key) {
            Some(v) => v.as_str(),
            None => None,
        }
    }
}


/// Inserts `value` under `key` into the entries of an object.
#[verifier::loop_isolation(false)]
pub fn entries_insert_exec(entries: &mut Vec<(String, JsonValue)>, key: &str, value: JsonValue)
    ensures
        entries_view(final(entries)@) == entries_insert(entries_view(old(entries)@), key@, value@),
{
    broadcast use group_json_view;

    let ghost e = entries_view(entries@);
    let mut i: usize = 0;
    while i < entries.len()
        invariant
            i <= entries.len(),
            entries@ == old(entries)@,
            e.len() == entries@.len(),
            forall|j: int| 0 <= j < i ==> #[trigger] e[j].0 != key@,
        decreases entries.len() - i,
    {
        assert(e[i as int] == (entries@[i as int].0@, entries@[i as int].1@));
        if crate::text::str_eq(entries[i].0.as_str(), key) {
            proof {
                lemma_entries_pos_at(e, key@, i as int);
            }
            let ghost v = value@;
            entries.set(i, (key.to_owned(), value));
            assert(entries_view(entries@) =~= e.update(i as int, (key@, v)));
            return ;
        }
        i = i + 1;
    }
    proof {
        lemma_entries_pos_at(e, key@, i as int);
    }
    let ghost v = value@;
    entries.push((key.to_owned(), value));
    assert(entries_view(entries@) =~= e.push((key@, v)));
}

impl JsonValue {
    /// A JSON string holding `s`.
    pub fn from_str(s: &str) -> (r: JsonValue)
        ensures
            r@ == Json::Str(s@),
    {
        JsonValue::Str(s.to_owned())
    }

    /// An object with the given entries, in that order.
    pub fn object(entries: Vec<(String, JsonValue)>) -> (r: JsonValue)
        ensures
            r@ == Json::Object(entries_view(entries@)),
    {
        JsonValue::Object(entries)
    }

    /// An array with the given items, in that order.
    pub fn array(items: Vec<JsonValue>) -> (r: JsonValue)
        ensures
            r@ == Json::Array(items_view(items@)),
    {
        JsonValue::Array(items)
    }

    /// An empty object.
    pub fn empty_object() -> (r: JsonValue)
        ensures
            r@ == Json::Object(Seq::empty()),
    {
        let r = JsonValue::Object(Vec::new());
        assert(entries_view(Seq::<(String, JsonValue)>::empty()) =~= Seq::empty());
        r
    }

    pub fn obj1(k1: &str, v1: JsonValue) -> (r: JsonValue)
        ensures
            r@ == Json::Object(seq![(k1@, v1@)]),
    {
        broadcast use group_json_view;

        let ghost w1 = v1@;
        let mut e: Vec<(String, JsonValue)> = Vec::new();
        e.push((k1.to_owned(), v1));
        assert(entries_view(e@) =~= seq![(k1@, w1)]);
        JsonValue::Object(e)
    }

    pub fn obj2(k1: &str, v1: JsonValue, k2: &str, v2: JsonValue) -> (r: JsonValue)
        ensures
            r@ == Json::Object(seq![(k1@, v1@), (k2@, v2@)]),
    {
        broadcast use group_json_view;

        let ghost w1 = v1@;
        let ghost w2 = v2@;
        let mut e: Vec<(String, JsonValue)> = Vec::new();
        e.push((k1.to_owned(), v1));
        e.push((k2.to_owned(), v2));
        assert(entries_view(e@) =~= seq![(k1@, w1), (k2@, w2)]);
        JsonValue::Object(e)
    }

    pub fn obj3(k1: &str, v1: JsonValue, k2: &str, v2: JsonValue, k3: &str, v3: JsonValue) -> (r:
        JsonValue)
        ensures
            r@ == Json::Object(seq![(k1@, v1@), (k2@, v2@), (k3@, v3@)]),
    {
        broadcast use group_json_view;

        let ghost w1 = v1@;
        let ghost w2 = v2@;
        let ghost w3 = v3@;
        let mut e: Vec<(String, JsonValue)> = Vec::new();
        e.push((k1.to_owned(), v1));
        e.push((k2.to_owned(), v2));
        e.push((k3.to_owned(), v3));
        assert(entries_view(e@) =~= seq![(k1@, w1), (k2@, w2), (k3@, w3)]);
        JsonValue::Object(e)
    }

    pub fn obj4(
        k1: &str,
        v1: JsonValue,
        k2: &str,
        v2: JsonValue,
        k3: &str,
        v3: JsonValue,
        k4: &str,
        v4: JsonValue,
    ) -> (r: JsonValue)
        ensures
            r@ == Json::Object(seq![(k1@, v1@), (k2@, v2@), (k3@, v3@), (k4@, v4@)]),
    {
        broadcast use group_json_view;

        let ghost w1 = v1@;
        let ghost w2 = v2@;
        let ghost w3 = v3@;
        let ghost w4 = v4@;
        let mut e: Vec<(String, JsonValue)> = Vec::new();
        e.push((k1.to_owned(), v1));
        e.push((k2.to_owned(), v2));
        e.push((k3.to_owned(), v3));
        e.push((k4.to_owned(), v4));
        assert(entries_view(e@) =~= seq![(k1@, w1), (k2@, w2), (k3@, w3), (k4@, w4)]);
        JsonValue::Object(e)
    }

    /// A one-item array.
    pub fn array1(v: JsonValue) -> (r: JsonValue)
        ensures
            r@ == Json::Array(seq![v@]),
    {
        broadcast use group_json_view;

        let ghost w = v@;
        let mut a: Vec<JsonValue> = Vec::new();
        a.push(v);
        assert(items_view(a@) =~= seq![w]);
        JsonValue::Array(a)
    }
}


// ---------------------------------------------------------------------------
// Reading and writing JSON text (serde_json and simd-json)
// ---------------------------------------------------------------------------

#[verifier::external_type_specification]
#[verifier::external_body]
pub struct ExSerdeValue(serde_json::Value);

#[verifier::external_type_specification]
#[verifier::external_body]
pub struct ExSerdeNumber(serde_json::Number);

/// The document that `serde_json::from_str::<serde_json::Value>` reads from `text`,
/// or nothing where it reports an error.
pub uninterp spec fn serde_json_parsed(text: Seq<char>) -> Option<Json>;

/// The document that `simd_json::from_slice::<serde_json::Value>` reads from a
/// copy of `bytes`, or nothing where it reports an error.
pub uninterp spec fn simd_json_parsed(bytes: Seq<u8>) -> Option<Json>;

/// The text that `serde_json::Value::to_string` writes for `value`.
pub uninterp spec fn json_text(value: Json) -> Seq<char>;

/// Turns a `serde_json::Value` into the library's own tree, variant for
/// variant: the number keeps the variant that `as_u64`/`as_i64` report, a
/// float keeps its decimal text. No contract: it stands inside the parse
/// wrappers below, whose contracts cover it.
#[verifier::external_body]
fn from_serde(v: serde_json::Value) -> JsonValue {
    match v {
        serde_json::Value::Null => JsonValue::Null,
        serde_json::Value::Bool(b) => JsonValue::Bool(b),
        serde_json::Value::Number(n) => JsonValue::Number(from_serde_number(&n)),
        serde_json::Value::String(s) => JsonValue::Str(s),
        serde_json::Value::Array(a) => JsonValue::Array(a.into_iter().map(from_serde).collect()),
        serde_json::Value::Object(m) => JsonValue::Object(
            m.into_iter().map(|(k, x)| (k, from_serde(x))).collect(),
        ),
    }
}

/// Turns a `serde_json::Number` into the library's number: the variant that
/// `as_u64`/`as_i64` report, or the decimal text of a float.
#[verifier::external_body]
fn from_serde_number(n: &serde_json::Number) -> JsonNumber {
    match (n.as_u64(), n.as_i64()) {
        (Some(u), _) => JsonNumber::PosInt(u),
        (None, Some(i)) => JsonNumber::NegInt(i),
        (None, None) => JsonNumber::Float(n.to_string()),
    }
}

/// Turns the library's tree back into a `serde_json::Value`, variant for
/// variant (a float's text is read back as the number it was written from).
/// No contract: it stands inside `to_json_text`, whose contract covers it.
#[verifier::external_body]
fn to_serde(v: &JsonValue) -> serde_json::Value {
    match v {
        JsonValue::Null => serde_json::Value::Null,
        JsonValue::Bool(b) => serde_json::Value::Bool(*b),
        JsonValue::Number(n) => to_serde_number(n),
        JsonValue::Str(s) => serde_json::Value::String(s.clone()),
        JsonValue::Array(a) => serde_json::Value::Array(a.iter().map(to_serde).collect()),
        JsonValue::Object(o) => serde_json::Value::Object(
            o.iter().map(|(k, x)| (k.clone(), to_serde(x))).collect(),
        ),
    }
}

/// Turns the library's number back into a `serde_json` number (a float's text
/// is read back as the number it was written from).
#[verifier::external_body]
fn to_serde_number(n: &JsonNumber) -> serde_json::Value {
    match n {
        JsonNumber::PosInt(u) => serde_json::Value::from(*u),
        JsonNumber::NegInt(i) => serde_json::Value::from(*i),
        JsonNumber::Float(t) => t.parse::<serde_json::Number>().map_or(
            serde_json::Value::Null,
            serde_json::Value::Number,
        ),
    }
}

/// Calls `serde_json::from_str::<serde_json::Value>(text)`. The contract claims
/// only that the result is the parser's document for `text` (named above),
/// or nothing exactly when the parser reports an error.
#[verifier::external_body]
pub(crate) fn serde_parse_text(text: &str) -> (r: Option<JsonValue>)
    ensures
        opt_view(r) == serde_json_parsed(text@),
{
    serde_json::from_str::<serde_json::Value>(text).ok().map(from_serde)
}

/// Calls `simd_json::from_slice::<serde_json::Value>` on a copy of `bytes`
/// (the parser works in place). The contract claims only that the result is
/// the parser's document for `bytes` (named above), or nothing exactly when
/// the parser reports an error.
#[verifier::external_body]
pub(crate) fn simd_parse_bytes(bytes: &[u8]) -> (r: Option<JsonValue>)
    ensures
        opt_view(r) == simd_json_parsed(bytes@),
{
    let mut buf = bytes.to_vec();
    simd_json::from_slice::<serde_json::Value>(&mut buf).ok().map(from_serde)
}

/// Calls `serde_json::Value::to_string` on the document. The contract claims
/// only that the text is the serializer's text for the document (named above).
#[verifier::external_body]
pub(crate) fn serde_to_text(v: &JsonValue) -> (r: String)
    ensures
        r@ == json_text(v@),
{
    to_serde(v).to_string()
}

impl JsonValue {
    /// Reads one JSON document from `text`.
    pub fn parse_text(text: &str) -> (r: Option<JsonValue>)
        ensures
            opt_view(r) == serde_json_parsed(text@),
    {
        serde_parse_text(text)
    }

    /// Reads one line of a JSON Lines file.
    pub fn parse_line(line: &[u8]) -> (r: Option<JsonValue>)
        ensures
            opt_view(r) == simd_json_parsed(line@),
    {
        simd_parse_bytes(line)
    }

    /// The JSON text of the document.
    pub fn to_json_text(&self) -> (r: String)
        ensures
            r@ == json_text(self@),
    {
        serde_to_text(self)
    }
}

} // verus!
