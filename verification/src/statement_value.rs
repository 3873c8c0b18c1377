//! Statement values and their wire form.

use vstd::prelude::*;
use crate::error::RestApiError;
use crate::json::{Json, JsonValue, json_clone, obj_get, obj_upsert};
use crate::apply::{as_text, get_key, obj_insert_sorted};
use crate::patch_entry::{decimal_string, spec_decimal};
use crate::statement_value_content::{StatementValueContent, TimePrecision, spec_precision_num};

verus! {

/// A statement value: a concrete content, an unknown value, or no value.
#[derive(Debug, Clone, PartialEq, Default)]
pub enum StatementValue {
    Value(StatementValueContent),
    SomeValue,
    #[default]
    NoValue,
}

/// The numeric value of a digit character, when it is one.
pub open spec fn spec_digit_val(c: char) -> Option<int> {
    if '0' as u32 <= c as u32 && c as u32 <= '9' as u32 {
        Some(c as u32 - '0' as u32)
    } else {
        None
    }
}

/// What parsing one-or-two-digit decimal text yields.
pub open spec fn spec_parse2(t: Seq<char>) -> Option<int> {
    if t.len() == 1 {
        spec_digit_val(t[0])
    } else if t.len() == 2 {
        match (spec_digit_val(t[0]), spec_digit_val(t[1])) {
            (Some(a), Some(b)) => Some(10 * a + b),
            _ => None,
        }
    } else {
        None
    }
}

/// Parses one-or-two-digit decimal text.
pub fn parse_two_digits(s: &str) -> (r: Option<u64>)
    ensures
        match r {
            Some(n) => spec_parse2(s@) == Some(n as int),
            None => spec_parse2(s@) is None,
        },
{
    let n = s.unicode_len();
    if n == 1 {
        let c = s.get_char(0);
        let u = c as u32;
        if 48 <= u && u <= 57 {
            Some((u - 48) as u64)
        } else {
            None
        }
    } else if n == 2 {
        let c0 = s.get_char(0);
        let c1 = s.get_char(1);
        let u0 = c0 as u32;
        let u1 = c1 as u32;
        if 48 <= u0 && u0 <= 57 && 48 <= u1 && u1 <= 57 {
            Some((10 * (u0 - 48) + (u1 - 48)) as u64)
        } else {
            None
        }
    } else {
        None
    }
}

/// The serialized form of a content value.
pub open spec fn spec_content_json(c: StatementValueContent) -> Json {
    match c {
        StatementValueContent::String(s) => Json::Str(s@),
        StatementValueContent::Time { time, precision, calendarmodel } => Json::Obj(
            obj_upsert(
                obj_upsert(
                    obj_upsert(Seq::empty(), "time"@, Json::Str(time@)),
                    "precision"@,
                    Json::Num(spec_decimal(spec_precision_num(precision))),
                ),
                "calendarmodel"@,
                Json::Str(calendarmodel@),
            ),
        ),
        StatementValueContent::Location { latitude, longitude, precision, globe } => Json::Obj(
            obj_upsert(
                obj_upsert(
                    obj_upsert(
                        obj_upsert(Seq::empty(), "latitude"@, Json::Num(latitude@)),
                        "longitude"@,
                        Json::Num(longitude@),
                    ),
                    "precision"@,
                    Json::Num(precision@),
                ),
                "globe"@,
                Json::Str(globe@),
            ),
        ),
        StatementValueContent::Quantity { amount, unit } => Json::Obj(
            obj_upsert(
                obj_upsert(Seq::empty(), "amount"@, Json::Str(amount@)),
                "unit"@,
                Json::Str(unit@),
            ),
        ),
        StatementValueContent::MonolingualText { language, text } => Json::Obj(
            obj_upsert(
                obj_upsert(Seq::empty(), "language"@, Json::Str(language@)),
                "text"@,
                Json::Str(text@),
            ),
        ),
    }
}

/// The serialized form of a statement value: its kind tag, and for a
/// concrete value its content.
pub open spec fn spec_value_json(v: StatementValue) -> Json {
    match v {
        StatementValue::Value(c) => Json::Obj(
            obj_upsert(
                obj_upsert(Seq::empty(), "type"@, Json::Str("value"@)),
                "content"@,
                spec_content_json(c),
            ),
        ),
        StatementValue::SomeValue => Json::Obj(
            obj_upsert(Seq::empty(), "type"@, Json::Str("somevalue"@)),
        ),
        StatementValue::NoValue => Json::Obj(
            obj_upsert(Seq::empty(), "type"@, Json::Str("novalue"@)),
        ),
    }
}

/// Parsing the rendered decimal of a small number gives it back.
pub proof fn lemma_parse2_decimal(n: int)
    requires
        0 <= n <= 14,
    ensures
        spec_parse2(spec_decimal(n)) == Some(n),
{
    if n < 10 {
        assert(spec_decimal(n) == seq![crate::patch_entry::spec_digit(n)]);
        assert(spec_decimal(n).len() == 1);
        assert(spec_digit_val(crate::patch_entry::spec_digit(n)) == Some(n));
    } else {
        assert(spec_decimal(n / 10) == seq![crate::patch_entry::spec_digit(1)]);
        assert(spec_decimal(n) =~= seq![
            crate::patch_entry::spec_digit(1),
            crate::patch_entry::spec_digit(n % 10),
        ]);
        assert(spec_decimal(n).len() == 2);
        assert(spec_digit_val(crate::patch_entry::spec_digit(1)) == Some(1int));
        assert(spec_digit_val(crate::patch_entry::spec_digit(n % 10)) == Some(n % 10));
    }
}

/// The member under `k`, when the document is an object.
pub open spec fn member(j: Json, k: Seq<char>) -> Option<Json> {
    match j {
        Json::Obj(ps) => obj_get(ps, k),
        _ => None,
    }
}

/// True when the document carries the three members of a time value,
/// with a readable precision number.
pub open spec fn time_fields(j: Json) -> bool {
    &&& member(j, "time"@) matches Some(Json::Str(_))
    &&& member(j, "precision"@) matches Some(Json::Num(t)) && spec_parse2(t) is Some
    &&& member(j, "calendarmodel"@) matches Some(Json::Str(_))
}

/// True when the document is a time value: its fields are present and the
/// precision is in range.
pub open spec fn time_shape(j: Json) -> bool {
    time_fields(j) && (member(j, "precision"@) matches Some(Json::Num(t)) && (spec_parse2(t)
        matches Some(n) && 0 <= n <= 14))
}

/// True when the time members are present but the precision number is out
/// of range; such a document is rejected outright.
pub open spec fn time_overflow(j: Json) -> bool {
    time_fields(j) && (member(j, "precision"@) matches Some(Json::Num(t)) && (spec_parse2(t)
        matches Some(n) && n > 14))
}

/// True when the document carries the four members of a coordinate.
pub open spec fn location_shape(j: Json) -> bool {
    &&& member(j, "latitude"@) matches Some(Json::Num(_))
    &&& member(j, "longitude"@) matches Some(Json::Num(_))
    &&& member(j, "precision"@) matches Some(Json::Num(_))
    &&& member(j, "globe"@) matches Some(Json::Str(_))
}

/// True when the document carries the two members of a quantity.
pub open spec fn quantity_shape(j: Json) -> bool {
    &&& member(j, "amount"@) matches Some(Json::Str(_))
    &&& member(j, "unit"@) matches Some(Json::Str(_))
}

/// True when the document carries the two members of a monolingual text.
pub open spec fn mono_shape(j: Json) -> bool {
    &&& member(j, "language"@) matches Some(Json::Str(_))
    &&& member(j, "text"@) matches Some(Json::Str(_))
}

/// What a successful parse of a content value yields; the shapes are
/// probed in a fixed order, plain text first.
pub open spec fn content_parsed(j: Json, c: StatementValueContent) -> bool {
    if j is Str {
        c matches StatementValueContent::String(s) && j == Json::Str(s@)
    } else if time_shape(j) {
        c matches StatementValueContent::Time { time, precision, calendarmodel }
            && member(j, "time"@) == Some(Json::Str(time@)) && member(j, "calendarmodel"@)
            == Some(Json::Str(calendarmodel@)) && (member(j, "precision"@) matches Some(
            Json::Num(t),
        ) && spec_parse2(t) == Some(spec_precision_num(precision)))
    } else if location_shape(j) {
        c matches StatementValueContent::Location { latitude, longitude, precision, globe }
            && member(j, "latitude"@) == Some(Json::Num(latitude@)) && member(j, "longitude"@)
            == Some(Json::Num(longitude@)) && member(j, "precision"@) == Some(
            Json::Num(precision@),
        ) && member(j, "globe"@) == Some(Json::Str(globe@))
    } else if quantity_shape(j) {
        c matches StatementValueContent::Quantity { amount, unit } && member(j, "amount"@)
            == Some(Json::Str(amount@)) && member(j, "unit"@) == Some(Json::Str(unit@))
    } else if mono_shape(j) {
        c matches StatementValueContent::MonolingualText { language, text } && member(
            j,
            "language"@,
        ) == Some(Json::Str(language@)) && member(j, "text"@) == Some(Json::Str(text@))
    } else {
        false
    }
}

/// True when some content value can be parsed out of the document.
pub open spec fn content_parseable(j: Json) -> bool {
    j is Str || time_shape(j) || location_shape(j) || quantity_shape(j) || mono_shape(j)
}

/// What a successful parse of a statement value yields, keyed by the
/// `type` member.
pub open spec fn value_parsed(j: Json, v: StatementValue) -> bool {
    match member(j, "type"@) {
        Some(Json::Str(t)) => {
            if t == "value"@ {
                v matches StatementValue::Value(c) && (member(j, "content"@) matches Some(cj)
                    && content_parsed(cj, c))
            } else if t == "somevalue"@ {
                v is SomeValue
            } else if t == "novalue"@ {
                v is NoValue
            } else {
                false
            }
        },
        _ => false,
    }
}

/// True when parsing the document as a statement value succeeds: it is
/// parseable and, for a concrete value, its content's precision is not
/// out of range.
pub open spec fn value_accepted(j: Json) -> bool {
    value_parseable(j) && !(member(j, "content"@) matches Some(cj) && time_overflow(cj))
}

/// True when a statement value can be parsed out of the document.
pub open spec fn value_parseable(j: Json) -> bool {
    match member(j, "type"@) {
        Some(Json::Str(t)) => {
            if t == "value"@ {
                member(j, "content"@) matches Some(cj) && content_parseable(cj)
            } else {
                t == "somevalue"@ || t == "novalue"@
            }
        },
        _ => false,
    }
}

/// The wire member names this module uses are pairwise distinct.
proof fn lemma_wire_keys()
    ensures
        "time"@ != "amount"@,
        "time"@ != "unit"@,
        "time"@ != "latitude"@,
        "time"@ != "longitude"@,
        "time"@ != "globe"@,
        "time"@ != "language"@,
        "time"@ != "text"@,
        "time"@ != "precision"@,
        "time"@ != "calendarmodel"@,
        "precision"@ != "calendarmodel"@,
        "latitude"@ != "longitude"@,
        "latitude"@ != "precision"@,
        "latitude"@ != "globe"@,
        "latitude"@ != "amount"@,
        "latitude"@ != "unit"@,
        "latitude"@ != "language"@,
        "latitude"@ != "text"@,
        "longitude"@ != "precision"@,
        "longitude"@ != "globe"@,
        "precision"@ != "globe"@,
        "amount"@ != "unit"@,
        "amount"@ != "language"@,
        "amount"@ != "text"@,
        "unit"@ != "language"@,
        "unit"@ != "text"@,
        "language"@ != "text"@,
        "type"@ != "content"@,
        "value"@ != "somevalue"@,
        "value"@ != "novalue"@,
        "somevalue"@ != "novalue"@,
{
    reveal_strlit("time");
    reveal_strlit("precision");
    reveal_strlit("calendarmodel");
    reveal_strlit("latitude");
    reveal_strlit("longitude");
    reveal_strlit("globe");
    reveal_strlit("amount");
    reveal_strlit("unit");
    reveal_strlit("language");
    reveal_strlit("text");
    reveal_strlit("type");
    reveal_strlit("content");
    reveal_strlit("value");
    reveal_strlit("somevalue");
    reveal_strlit("novalue");
    assert("time"@.len() == 4);
    assert("precision"@.len() == 9);
    assert("calendarmodel"@.len() == 13);
    assert("latitude"@.len() == 8);
    assert("longitude"@.len() == 9);
    assert("globe"@.len() == 5);
    assert("amount"@.len() == 6);
    assert("unit"@.len() == 4);
    assert("language"@.len() == 8);
    assert("text"@.len() == 4);
    assert("type"@.len() == 4);
    assert("content"@.len() == 7);
    assert("value"@.len() == 5);
    assert("somevalue"@.len() == 9);
    assert("novalue"@.len() == 7);
    assert("time"@[0] == 't' && "unit"@[0] == 'u');
    assert("time"@[1] == 'i' && "text"@[1] == 'e' && "type"@[1] == 'y');
    assert("longitude"@[0] == 'l' && "precision"@[0] == 'p' && "somevalue"@[0] == 's');
    assert("latitude"@[2] == 't' && "language"@[2] == 'n');
}

/// The round trip of a content value: whatever parsing its serialized
/// form yields serializes to the same wire form again.
pub proof fn lemma_content_round_trip(c: StatementValueContent, c2: StatementValueContent)
    requires
        content_parsed(spec_content_json(c), c2),
    ensures
        spec_content_json(c2) == spec_content_json(c),
{
    lemma_wire_keys();
    let j = spec_content_json(c);
    let e: Seq<(Seq<char>, Json)> = Seq::empty();
    match c {
        StatementValueContent::String(s) => {
            match c2 {
                StatementValueContent::String(s2) => {
                    assert(Json::Str(s2@) == Json::Str(s@));
                },
                _ => {},
            }
        },
        StatementValueContent::Time { time, precision, calendarmodel } => {
            let m1 = obj_upsert(e, "time"@, Json::Str(time@));
            let m2 = obj_upsert(m1, "precision"@, Json::Num(
                spec_decimal(spec_precision_num(precision)),
            ));
            let m3 = obj_upsert(m2, "calendarmodel"@, Json::Str(calendarmodel@));
            crate::json::lemma_obj_get_upsert(e, "time"@, Json::Str(time@), "time"@);
            crate::json::lemma_obj_get_upsert(
                m1,
                "precision"@,
                Json::Num(spec_decimal(spec_precision_num(precision))),
                "time"@,
            );
            crate::json::lemma_obj_get_upsert(
                m2,
                "calendarmodel"@,
                Json::Str(calendarmodel@),
                "time"@,
            );
            crate::json::lemma_obj_get_upsert(
                m1,
                "precision"@,
                Json::Num(spec_decimal(spec_precision_num(precision))),
                "precision"@,
            );
            crate::json::lemma_obj_get_upsert(
                m2,
                "calendarmodel"@,
                Json::Str(calendarmodel@),
                "precision"@,
            );
            crate::json::lemma_obj_get_upsert(
                m2,
                "calendarmodel"@,
                Json::Str(calendarmodel@),
                "calendarmodel"@,
            );
            lemma_parse2_decimal(spec_precision_num(precision));
            assert(time_shape(j));
            assert(c2 matches StatementValueContent::Time { .. });
            match c2 {
                StatementValueContent::Time {
                    time: t2,
                    precision: p2,
                    calendarmodel: cal2,
                } => {
                    assert(t2@ == time@);
                    assert(cal2@ == calendarmodel@);
                    assert(spec_parse2(spec_decimal(spec_precision_num(precision))) == Some(
                        spec_precision_num(p2),
                    ));
                    assert(spec_precision_num(p2) == spec_precision_num(precision));
                    assert(p2 == precision);
                },
                _ => {},
            }
        },
        StatementValueContent::Location { latitude, longitude, precision, globe } => {
            let m1 = obj_upsert(e, "latitude"@, Json::Num(latitude@));
            let m2 = obj_upsert(m1, "longitude"@, Json::Num(longitude@));
            let m3 = obj_upsert(m2, "precision"@, Json::Num(precision@));
            let m4 = obj_upsert(m3, "globe"@, Json::Str(globe@));
            lemma_member_chain4(
                ("latitude"@, Json::Num(latitude@)),
                ("longitude"@, Json::Num(longitude@)),
                ("precision"@, Json::Num(precision@)),
                ("globe"@, Json::Str(globe@)),
                "time"@,
            );
            lemma_member_chain4(
                ("latitude"@, Json::Num(latitude@)),
                ("longitude"@, Json::Num(longitude@)),
                ("precision"@, Json::Num(precision@)),
                ("globe"@, Json::Str(globe@)),
                "latitude"@,
            );
            lemma_member_chain4(
                ("latitude"@, Json::Num(latitude@)),
                ("longitude"@, Json::Num(longitude@)),
                ("precision"@, Json::Num(precision@)),
                ("globe"@, Json::Str(globe@)),
                "longitude"@,
            );
            lemma_member_chain4(
                ("latitude"@, Json::Num(latitude@)),
                ("longitude"@, Json::Num(longitude@)),
                ("precision"@, Json::Num(precision@)),
                ("globe"@, Json::Str(globe@)),
                "precision"@,
            );
            lemma_member_chain4(
                ("latitude"@, Json::Num(latitude@)),
                ("longitude"@, Json::Num(longitude@)),
                ("precision"@, Json::Num(precision@)),
                ("globe"@, Json::Str(globe@)),
                "globe"@,
            );
            assert(!time_fields(j));
            assert(location_shape(j));
        },
        StatementValueContent::Quantity { amount, unit } => {
            lemma_member_chain2(
                ("amount"@, Json::Str(amount@)),
                ("unit"@, Json::Str(unit@)),
                "time"@,
            );
            lemma_member_chain2(
                ("amount"@, Json::Str(amount@)),
                ("unit"@, Json::Str(unit@)),
                "latitude"@,
            );
            lemma_member_chain2(
                ("amount"@, Json::Str(amount@)),
                ("unit"@, Json::Str(unit@)),
                "amount"@,
            );
            lemma_member_chain2(
                ("amount"@, Json::Str(amount@)),
                ("unit"@, Json::Str(unit@)),
                "unit"@,
            );
            assert("unit"@ != "amount"@);
            assert(member(j, "time"@) is None);
            assert(!time_fields(j));
            assert(member(j, "latitude"@) is None);
            assert(!location_shape(j));
            assert(quantity_shape(j));
        },
        StatementValueContent::MonolingualText { language, text } => {
            lemma_member_chain2(
                ("language"@, Json::Str(language@)),
                ("text"@, Json::Str(text@)),
                "time"@,
            );
            lemma_member_chain2(
                ("language"@, Json::Str(language@)),
                ("text"@, Json::Str(text@)),
                "latitude"@,
            );
            lemma_member_chain2(
                ("language"@, Json::Str(language@)),
                ("text"@, Json::Str(text@)),
                "amount"@,
            );
            lemma_member_chain2(
                ("language"@, Json::Str(language@)),
                ("text"@, Json::Str(text@)),
                "language"@,
            );
            lemma_member_chain2(
                ("language"@, Json::Str(language@)),
                ("text"@, Json::Str(text@)),
                "text"@,
            );
            assert(!time_fields(j));
            assert(!location_shape(j));
            assert(!quantity_shape(j));
            assert(mono_shape(j));
        },
    }
}

/// What a lookup sees in a two-pair object built by sorted inserts.
proof fn lemma_member_chain2(a: (Seq<char>, Json), b: (Seq<char>, Json), k: Seq<char>)
    ensures
        b.0 != a.0 ==> obj_get(obj_upsert(obj_upsert(Seq::empty(), a.0, a.1), b.0, b.1), k)
            == (if k == a.0 {
            Some(a.1)
        } else if k == b.0 {
            Some(b.1)
        } else {
            None
        }),
{
    let e: Seq<(Seq<char>, Json)> = Seq::empty();
    let m1 = obj_upsert(e, a.0, a.1);
    crate::json::lemma_obj_get_upsert(e, a.0, a.1, k);
    crate::json::lemma_obj_get_upsert(m1, b.0, b.1, k);
}

/// What a lookup sees in a four-pair object built by sorted inserts.
proof fn lemma_member_chain4(
    a: (Seq<char>, Json),
    b: (Seq<char>, Json),
    c: (Seq<char>, Json),
    d: (Seq<char>, Json),
    k: Seq<char>,
)
    ensures
        a.0 != b.0 && a.0 != c.0 && a.0 != d.0 && b.0 != c.0 && b.0 != d.0 && c.0 != d.0
            ==> obj_get(
            obj_upsert(
                obj_upsert(obj_upsert(obj_upsert(Seq::empty(), a.0, a.1), b.0, b.1), c.0, c.1),
                d.0,
                d.1,
            ),
            k,
        ) == (if k == a.0 {
            Some(a.1)
        } else if k == b.0 {
            Some(b.1)
        } else if k == c.0 {
            Some(c.1)
        } else if k == d.0 {
            Some(d.1)
        } else {
            None
        }),
{
    let e: Seq<(Seq<char>, Json)> = Seq::empty();
    let m1 = obj_upsert(e, a.0, a.1);
    let m2 = obj_upsert(m1, b.0, b.1);
    let m3 = obj_upsert(m2, c.0, c.1);
    crate::json::lemma_obj_get_upsert(e, a.0, a.1, k);
    crate::json::lemma_obj_get_upsert(m1, b.0, b.1, k);
    crate::json::lemma_obj_get_upsert(m2, c.0, c.1, k);
    crate::json::lemma_obj_get_upsert(m3, d.0, d.1, k);
}

/// The round trip of a statement value: whatever parsing its serialized
/// form yields serializes to the same wire form again.
pub proof fn lemma_value_round_trip(v: StatementValue, v2: StatementValue)
    requires
        value_parsed(spec_value_json(v), v2),
    ensures
        spec_value_json(v2) == spec_value_json(v),
{
    lemma_wire_keys();
    let j = spec_value_json(v);
    let e: Seq<(Seq<char>, Json)> = Seq::empty();
    match v {
        StatementValue::Value(c) => {
            lemma_member_chain2(
                ("type"@, Json::Str("value"@)),
                ("content"@, spec_content_json(c)),
                "type"@,
            );
            lemma_member_chain2(
                ("type"@, Json::Str("value"@)),
                ("content"@, spec_content_json(c)),
                "content"@,
            );
            assert(member(j, "type"@) == Some(Json::Str("value"@)));
            match v2 {
                StatementValue::Value(c2) => {
                    lemma_content_round_trip(c, c2);
                },
                _ => {},
            }
        },
        StatementValue::SomeValue => {
            crate::json::lemma_obj_get_upsert(e, "type"@, Json::Str("somevalue"@), "type"@);
        },
        StatementValue::NoValue => {
            crate::json::lemma_obj_get_upsert(e, "type"@, Json::Str("novalue"@), "type"@);
        },
    }
}

impl StatementValueContent {
    /// Serializes the content.
    pub fn to_json(&self) -> (r: JsonValue)
        ensures
            r@ == spec_content_json(*self),
            r@.wf(),
    {
        match self {
            StatementValueContent::String(s) => JsonValue::Str(s.clone()),
            StatementValueContent::Time { time, precision, calendarmodel } => {
                let p0: Vec<(String, JsonValue)> = Vec::new();
                proof {
                    assert(crate::json::view_pairs(p0@) =~= Seq::<(Seq<char>, Json)>::empty());
                }
                let p1 = obj_insert_sorted(&p0, "time", JsonValue::Str(time.clone()));
                let p2 = obj_insert_sorted(
                    &p1,
                    "precision",
                    JsonValue::Num(decimal_string(precision.as_u8() as usize)),
                );
                let p3 = obj_insert_sorted(&p2, "calendarmodel", JsonValue::Str(
                    calendarmodel.clone(),
                ));
                proof {
                    lemma_obj_chain_wf3(
                        ("time"@, Json::Str(time@)),
                        ("precision"@, Json::Num(spec_decimal(spec_precision_num(*precision)))),
                        ("calendarmodel"@, Json::Str(calendarmodel@)),
                    );
                }
                JsonValue::Object(p3)
            },
            StatementValueContent::Location { latitude, longitude, precision, globe } => {
                let p0: Vec<(String, JsonValue)> = Vec::new();
                proof {
                    assert(crate::json::view_pairs(p0@) =~= Seq::<(Seq<char>, Json)>::empty());
                }
                let p1 = obj_insert_sorted(&p0, "latitude", JsonValue::Num(latitude.clone()));
                let p2 = obj_insert_sorted(&p1, "longitude", JsonValue::Num(longitude.clone()));
                let p3 = obj_insert_sorted(&p2, "precision", JsonValue::Num(precision.clone()));
                let p4 = obj_insert_sorted(&p3, "globe", JsonValue::Str(globe.clone()));
                proof {
                    lemma_obj_chain_wf4(
                        ("latitude"@, Json::Num(latitude@)),
                        ("longitude"@, Json::Num(longitude@)),
                        ("precision"@, Json::Num(precision@)),
                        ("globe"@, Json::Str(globe@)),
                    );
                }
                JsonValue::Object(p4)
            },
            StatementValueContent::Quantity { amount, unit } => {
                let p0: Vec<(String, JsonValue)> = Vec::new();
                proof {
                    assert(crate::json::view_pairs(p0@) =~= Seq::<(Seq<char>, Json)>::empty());
                }
                let p1 = obj_insert_sorted(&p0, "amount", JsonValue::Str(amount.clone()));
                let p2 = obj_insert_sorted(&p1, "unit", JsonValue::Str(unit.clone()));
                proof {
                    lemma_obj_chain_wf2(
                        ("amount"@, Json::Str(amount@)),
                        ("unit"@, Json::Str(unit@)),
                    );
                }
                JsonValue::Object(p2)
            },
            StatementValueContent::MonolingualText { language, text } => {
                let p0: Vec<(String, JsonValue)> = Vec::new();
                proof {
                    assert(crate::json::view_pairs(p0@) =~= Seq::<(Seq<char>, Json)>::empty());
                }
                let p1 = obj_insert_sorted(&p0, "language", JsonValue::Str(language.clone()));
                let p2 = obj_insert_sorted(&p1, "text", JsonValue::Str(text.clone()));
                proof {
                    lemma_obj_chain_wf2(
                        ("language"@, Json::Str(language@)),
                        ("text"@, Json::Str(text@)),
                    );
                }
                JsonValue::Object(p2)
            },
        }
    }

    /// Parses a content value, probing the shapes in a fixed order:
    /// plain text, time, coordinate, quantity, monolingual text.
    pub fn from_json(j: &JsonValue) -> (r: Result<StatementValueContent, RestApiError>)
        ensures
            match r {
                Ok(c) => content_parsed(j@, c),
                Err(_) => !content_parseable(j@) || time_overflow(j@),
            },
    {
        if let JsonValue::Str(s) = j {
            return Ok(StatementValueContent::String(s.clone()));
        }
        proof {
            assert(!(j@ is Str));
        }
        // time
        let time_v = get_key(j, "time");
        let prec_v = get_key(j, "precision");
        let cal_v = get_key(j, "calendarmodel");
        let mut time_ready = false;
        if let (Some(tv), Some(pv), Some(cv)) = (time_v, prec_v, cal_v) {
            if let (Some(ts), JsonValue::Num(ps), Some(cs)) = (as_text(tv), pv, as_text(cv)) {
                match parse_two_digits(ps.as_str()) {
                    Some(n) => {
                        if n <= 14 {
                            let precision = match TimePrecision::try_from_u64(n) {
                                Ok(p) => p,
                                Err(_) => {
                                    return Err(RestApiError::InvalidPrecision);
                                },
                            };
                            return Ok(
                                StatementValueContent::Time {
                                    time: ts.clone(),
                                    precision,
                                    calendarmodel: cs.clone(),
                                },
                            );
                        } else {
                            return Err(RestApiError::InvalidPrecision);
                        }
                    },
                    None => {},
                }
            }
        }
        proof {
            assert(!time_shape(j@));
            assert(!time_overflow(j@));
        }
        // coordinate
        let lat_v = get_key(j, "latitude");
        let lon_v = get_key(j, "longitude");
        let prec2_v = get_key(j, "precision");
        let globe_v = get_key(j, "globe");
        if let (Some(av), Some(ov), Some(pv), Some(gv)) = (lat_v, lon_v, prec2_v, globe_v) {
            match (av, ov, pv, as_text(gv)) {
                (JsonValue::Num(la), JsonValue::Num(lo), JsonValue::Num(pr), Some(gs)) => {
                    return Ok(
                        StatementValueContent::Location {
                            latitude: la.clone(),
                            longitude: lo.clone(),
                            precision: pr.clone(),
                            globe: gs.clone(),
                        },
                    );
                },
                _ => {},
            }
        }
        proof {
            assert(!location_shape(j@));
        }
        // quantity
        let amount_v = get_key(j, "amount");
        let unit_v = get_key(j, "unit");
        if let (Some(av), Some(uv)) = (amount_v, unit_v) {
            if let (Some(am), Some(un)) = (as_text(av), as_text(uv)) {
                return Ok(
                    StatementValueContent::Quantity { amount: am.clone(), unit: un.clone() },
                );
            }
        }
        proof {
            assert(!quantity_shape(j@));
        }
        // monolingual text
        let lang_v = get_key(j, "language");
        let text_v = get_key(j, "text");
        if let (Some(lv), Some(tv)) = (lang_v, text_v) {
            if let (Some(la), Some(te)) = (as_text(lv), as_text(tv)) {
                return Ok(
                    StatementValueContent::MonolingualText {
                        language: la.clone(),
                        text: te.clone(),
                    },
                );
            }
        }
        proof {
            assert(!mono_shape(j@));
        }
        Err(RestApiError::UnknownValue(String::from_str("unrecognized statement value content")))
    }

    /// Clones the content, keeping its value.
    pub fn clone_value(&self) -> (r: StatementValueContent)
        ensures
            spec_content_json(r) == spec_content_json(*self),
    {
        match self {
            StatementValueContent::String(s) => StatementValueContent::String(s.clone()),
            StatementValueContent::Time { time, precision, calendarmodel } =>
                StatementValueContent::Time {
                time: time.clone(),
                precision: *precision,
                calendarmodel: calendarmodel.clone(),
            },
            StatementValueContent::Location { latitude, longitude, precision, globe } =>
                StatementValueContent::Location {
                latitude: latitude.clone(),
                longitude: longitude.clone(),
                precision: precision.clone(),
                globe: globe.clone(),
            },
            StatementValueContent::Quantity { amount, unit } => StatementValueContent::Quantity {
                amount: amount.clone(),
                unit: unit.clone(),
            },
            StatementValueContent::MonolingualText { language, text } =>
                StatementValueContent::MonolingualText {
                language: language.clone(),
                text: text.clone(),
            },
        }
    }
}

/// The two-pair object built by two sorted inserts is well formed.
proof fn lemma_obj_chain_wf2(a: (Seq<char>, Json), b: (Seq<char>, Json))
    requires
        a.1.wf(),
        b.1.wf(),
    ensures
        Json::Obj(obj_upsert(obj_upsert(Seq::empty(), a.0, a.1), b.0, b.1)).wf(),
{
    let e: Seq<(Seq<char>, Json)> = Seq::empty();
    crate::json::lemma_obj_upsert_sorted(e, a.0, a.1);
    crate::json::lemma_obj_upsert_wf(e, a.0, a.1);
    crate::json::lemma_obj_upsert_sorted(obj_upsert(e, a.0, a.1), b.0, b.1);
    crate::json::lemma_obj_upsert_wf(obj_upsert(e, a.0, a.1), b.0, b.1);
}

/// The three-pair object built by three sorted inserts is well formed.
proof fn lemma_obj_chain_wf3(a: (Seq<char>, Json), b: (Seq<char>, Json), c: (Seq<char>, Json))
    requires
        a.1.wf(),
        b.1.wf(),
        c.1.wf(),
    ensures
        Json::Obj(
            obj_upsert(obj_upsert(obj_upsert(Seq::empty(), a.0, a.1), b.0, b.1), c.0, c.1),
        ).wf(),
{
    lemma_obj_chain_wf2(a, b);
    let m = obj_upsert(obj_upsert(Seq::empty(), a.0, a.1), b.0, b.1);
    crate::json::lemma_obj_upsert_sorted(m, c.0, c.1);
    crate::json::lemma_obj_upsert_wf(m, c.0, c.1);
}

/// The four-pair object built by four sorted inserts is well formed.
proof fn lemma_obj_chain_wf4(
    a: (Seq<char>, Json),
    b: (Seq<char>, Json),
    c: (Seq<char>, Json),
    d: (Seq<char>, Json),
)
    requires
        a.1.wf(),
        b.1.wf(),
        c.1.wf(),
        d.1.wf(),
    ensures
        Json::Obj(
            obj_upsert(
                obj_upsert(obj_upsert(obj_upsert(Seq::empty(), a.0, a.1), b.0, b.1), c.0, c.1),
                d.0,
                d.1,
            ),
        ).wf(),
{
    lemma_obj_chain_wf3(a, b, c);
    let m = obj_upsert(
        obj_upsert(obj_upsert(Seq::empty(), a.0, a.1), b.0, b.1),
        c.0,
        c.1,
    );
    crate::json::lemma_obj_upsert_sorted(m, d.0, d.1);
    crate::json::lemma_obj_upsert_wf(m, d.0, d.1);
}

impl StatementValue {
    /// A concrete string value.
    pub fn new_string(text: &str) -> (r: StatementValue)
        ensures
            r matches StatementValue::Value(c) && (c matches StatementValueContent::String(s)
                && s@ == text@),
    {
        StatementValue::Value(StatementValueContent::String(text.to_owned()))
    }

    /// Serializes the statement value.
    pub fn to_json(&self) -> (r: JsonValue)
        ensures
            r@ == spec_value_json(*self),
            r@.wf(),
    {
        match self {
            StatementValue::Value(c) => {
                let p0: Vec<(String, JsonValue)> = Vec::new();
                proof {
                    assert(crate::json::view_pairs(p0@) =~= Seq::<(Seq<char>, Json)>::empty());
                }
                let cj = c.to_json();
                let p1 = obj_insert_sorted(&p0, "type", JsonValue::Str(String::from_str("value")));
                let p2 = obj_insert_sorted(&p1, "content", cj);
                proof {
                    lemma_obj_chain_wf2(
                        ("type"@, Json::Str("value"@)),
                        ("content"@, spec_content_json(*c)),
                    );
                }
                JsonValue::Object(p2)
            },
            StatementValue::SomeValue => {
                let p0: Vec<(String, JsonValue)> = Vec::new();
                proof {
                    assert(crate::json::view_pairs(p0@) =~= Seq::<(Seq<char>, Json)>::empty());
                    crate::json::lemma_obj_upsert_sorted(
                        Seq::empty(),
                        "type"@,
                        Json::Str("somevalue"@),
                    );
                    crate::json::lemma_obj_upsert_wf(
                        Seq::empty(),
                        "type"@,
                        Json::Str("somevalue"@),
                    );
                }
                let p1 = obj_insert_sorted(&p0, "type", JsonValue::Str(
                    String::from_str("somevalue"),
                ));
                JsonValue::Object(p1)
            },
            StatementValue::NoValue => {
                let p0: Vec<(String, JsonValue)> = Vec::new();
                proof {
                    assert(crate::json::view_pairs(p0@) =~= Seq::<(Seq<char>, Json)>::empty());
                    crate::json::lemma_obj_upsert_sorted(
                        Seq::empty(),
                        "type"@,
                        Json::Str("novalue"@),
                    );
                    crate::json::lemma_obj_upsert_wf(Seq::empty(), "type"@, Json::Str("novalue"@));
                }
                let p1 = obj_insert_sorted(&p0, "type", JsonValue::Str(
                    String::from_str("novalue"),
                ));
                JsonValue::Object(p1)
            },
        }
    }

    /// Parses a statement value, keyed by the `type` member.
    pub fn from_json(j: &JsonValue) -> (r: Result<StatementValue, RestApiError>)
        ensures
            match r {
                Ok(v) => value_parsed(j@, v),
                Err(_) => !value_parseable(j@) || (member(j@, "content"@) matches Some(cj)
                    && time_overflow(cj)),
            },
    {
        let tv = match get_key(j, "type") {
            Some(v) => v,
            None => {
                return Err(
                    RestApiError::MissingOrInvalidField {
                        field: String::from_str("type"),
                        j: json_clone(j),
                    },
                );
            },
        };
        let ts = match as_text(tv) {
            Some(s) => s,
            None => {
                return Err(
                    RestApiError::MissingOrInvalidField {
                        field: String::from_str("type"),
                        j: json_clone(j),
                    },
                );
            },
        };
        if crate::json::str_eq(ts.as_str(), "value") {
            let cj = match get_key(j, "content") {
                Some(v) => v,
                None => {
                    return Err(
                        RestApiError::MissingOrInvalidField {
                            field: String::from_str("content"),
                            j: json_clone(j),
                        },
                    );
                },
            };
            match StatementValueContent::from_json(cj) {
                Ok(c) => Ok(StatementValue::Value(c)),
                Err(e) => Err(e),
            }
        } else if crate::json::str_eq(ts.as_str(), "somevalue") {
            Ok(StatementValue::SomeValue)
        } else if crate::json::str_eq(ts.as_str(), "novalue") {
            Ok(StatementValue::NoValue)
        } else {
            Err(RestApiError::UnknownValue(ts.clone()))
        }
    }

    /// Clones the statement value, keeping its value.
    pub fn clone_value(&self) -> (r: StatementValue)
        ensures
            spec_value_json(r) == spec_value_json(*self),
            r is Value == *self is Value,
            r is SomeValue == *self is SomeValue,
            r is NoValue == *self is NoValue,
    {
        match self {
            StatementValue::Value(c) => StatementValue::Value(c.clone_value()),
            StatementValue::SomeValue => StatementValue::SomeValue,
            StatementValue::NoValue => StatementValue::NoValue,
        }
    }
}

} // verus!
