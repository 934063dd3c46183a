use vstd::prelude::*;
use crate::decimal::{decimal_number, parse_decimal};
use crate::errors::SmError;
use crate::json::{Json, array_member, member, read_str, read_uint, str_member, uint_member};
use crate::sm::ResultSlot;
use crate::sm_req::{all_fit, all_read, parse_list, read_status, status_member};

verus! {

#[derive(Debug)]
pub struct SmHoursRequestActionParams {
    pub attributes: Vec<String>,
}

#[derive(Debug)]
pub struct SmHoursRequestAction {
    pub model: String,
    pub action: String,
    pub parameters: Vec<SmHoursRequestActionParams>,
}

/// The parameters of the class-hours call.
#[derive(Debug)]
pub struct SmHoursRequestParams {
    pub action: SmHoursRequestAction,
}

/// The attributes a class-hours call asks for.
pub open spec fn hour_attributes() -> Seq<Seq<char>> {
    seq!["number"@, "from"@, "until"@, "fromByDay"@, "untilByDay"@]
}

/// `j` holds the texts `xs`, in order.
pub open spec fn texts_of(j: Json, xs: Seq<String>) -> bool {
    j matches Json::Array(items) && items@.len() == xs.len()
        && forall|k: int| 0 <= k < xs.len() ==> (#[trigger] items@[k] matches Json::Str(s) && s@ == xs[k]@)
}

/// `j` is one entry of the parameters list: exactly the member `attributes`,
/// holding the attribute names in order.
pub open spec fn attributes_json(p: SmHoursRequestActionParams, j: Json) -> bool {
    &&& j is Object
    &&& j->Object_0@.len() == 1
    &&& j->Object_0@[0].0@ == "attributes"@
    &&& texts_of(j->Object_0@[0].1, p.attributes@)
}

/// `j` is the action: exactly the members `model`, `action` and
/// `parameters`, in that order.
pub open spec fn action_json(a: SmHoursRequestAction, j: Json) -> bool {
    &&& j is Object
    &&& j->Object_0@.len() == 3
    &&& j->Object_0@[0].0@ == "model"@
    &&& j->Object_0@[0].1 matches Json::Str(s) && s@ == a.model@
    &&& j->Object_0@[1].0@ == "action"@
    &&& j->Object_0@[1].1 matches Json::Str(s) && s@ == a.action@
    &&& j->Object_0@[2].0@ == "parameters"@
    &&& j->Object_0@[2].1 is Array
    &&& j->Object_0@[2].1->Array_0@.len() == a.parameters@.len()
    &&& forall|i: int| 0 <= i < a.parameters@.len() ==> attributes_json(
        a.parameters@[i],
        #[trigger] j->Object_0@[2].1->Array_0@[i],
    )
}

/// `j` is the wire form of the class-hours parameters `p`: exactly the member
/// `action`.
pub open spec fn hours_params_json(p: SmHoursRequestParams, j: Json) -> bool {
    &&& j is Object
    &&& j->Object_0@.len() == 1
    &&& j->Object_0@[0].0@ == "action"@
    &&& action_json(p.action, j->Object_0@[0].1)
}

impl SmHoursRequestParams {
    /// Asks for all class hours with their number, start and end, also by day.
    pub fn new() -> (r: Self)
        ensures
            r.action.model@ == "main/class-hour"@,
            r.action.action@ == "findAll"@,
            r.action.parameters@.len() == 1,
            r.action.parameters@[0].attributes@.map_values(|a: String| a@) == hour_attributes(),
    {
        let mut attributes: Vec<String> = Vec::new();
        attributes.push("number".to_owned());
        attributes.push("from".to_owned());
        attributes.push("until".to_owned());
        attributes.push("fromByDay".to_owned());
        attributes.push("untilByDay".to_owned());
        let mut parameters: Vec<SmHoursRequestActionParams> = Vec::new();
        parameters.push(SmHoursRequestActionParams { attributes });
        let r = SmHoursRequestParams {
            action: SmHoursRequestAction { model: "main/class-hour".to_owned(), action: "findAll".to_owned(), parameters },
        };
        assert(r.action.parameters@[0].attributes@.map_values(|a: String| a@) =~= hour_attributes());
        r
    }

    /// `{"action": {"model", "action", "parameters": [{"attributes": [...]}]}}`.
    pub fn to_json(&self) -> (r: Json)
        ensures
            hours_params_json(*self, r),
    {
        let mut ps: Vec<Json> = Vec::new();
        let mut i: usize = 0;
        while i < self.action.parameters.len()
            invariant
                i <= self.action.parameters@.len(),
                ps@.len() == i,
                forall|k: int| 0 <= k < i ==> attributes_json(self.action.parameters@[k], #[trigger] ps@[k]),
            decreases self.action.parameters@.len() - i,
        {
            let attrs = &self.action.parameters[i].attributes;
            let mut texts: Vec<Json> = Vec::new();
            let mut k: usize = 0;
            while k < attrs.len()
                invariant
                    k <= attrs@.len(),
                    texts@.len() == k,
                    forall|m: int| 0 <= m < k ==> (#[trigger] texts@[m] matches Json::Str(s) && s@ == attrs@[m]@),
                decreases attrs@.len() - k,
            {
                texts.push(Json::Str(attrs[k].clone()));
                k = k + 1;
            }
            let t = Json::Array(texts);
            let mut fields: Vec<(String, Json)> = Vec::new();
            fields.push(("attributes".to_owned(), t));
            let p = Json::Object(fields);
            ps.push(p);
            i = i + 1;
        }
        let mut action: Vec<(String, Json)> = Vec::new();
        action.push(("model".to_owned(), Json::Str(self.action.model.clone())));
        action.push(("action".to_owned(), Json::Str(self.action.action.clone())));
        action.push(("parameters".to_owned(), Json::Array(ps)));
        let a = Json::Object(action);
        let mut fields: Vec<(String, Json)> = Vec::new();
        fields.push(("action".to_owned(), a));
        Json::Object(fields)
    }
}

/// The start and end times of one class hour, overall and by weekday.
#[derive(Debug)]
pub struct LessonHours {
    pub number: usize,
    pub from: String,
    pub until: String,
    pub from_by_day: Vec<String>,
    pub until_by_day: Vec<String>,
    pub id: usize,
}

/// The result of the class-hours call.
#[derive(Debug)]
pub struct HoursResult {
    pub status: u16,
    pub data: Vec<LessonHours>,
}

pub open spec fn text_fits(j: Json) -> bool {
    j is Str
}

pub open spec fn read_text(j: Json, s: String) -> bool {
    j matches Json::Str(t) && t@ == s@
}

fn text_from_json(j: &Json) -> (r: Option<String>)
    ensures
        match r {
            Some(s) => read_text(*j, s),
            None => !text_fits(*j),
        },
{
    match j {
        Json::Str(s) => Some(s.clone()),
        _ => None,
    }
}

pub open spec fn texts_fit(j: Json, key: Seq<char>) -> bool {
    array_member(j, key) matches Some(items) && all_fit(items, |t: Json| text_fits(t))
}

pub open spec fn texts_read(j: Json, key: Seq<char>, xs: Seq<String>) -> bool {
    array_member(j, key) matches Some(items) && all_read(items, xs, |t: Json, s: String| read_text(t, s))
}

fn read_texts(j: &Json, key: &str) -> (r: Option<Vec<String>>)
    ensures
        match r {
            Some(v) => texts_read(*j, key@, v@),
            None => !texts_fit(*j, key@),
        },
{
    match crate::json::read_array(j, key) {
        Some(items) => parse_list(
            items,
            text_from_json,
            Ghost(|t: Json| text_fits(t)),
            Ghost(|t: Json, s: String| read_text(t, s)),
        ),
        None => None,
    }
}

/// A class hour's number is sent as decimal text.
pub open spec fn hour_number(j: Json) -> Option<int> {
    match str_member(j, "number"@) {
        Some(s) => decimal_number(s),
        None => None,
    }
}

pub open spec fn lesson_hours_fits(j: Json) -> bool {
    &&& hour_number(j) is Some
    &&& str_member(j, "from"@) is Some
    &&& str_member(j, "until"@) is Some
    &&& texts_fit(j, "fromByDay"@)
    &&& texts_fit(j, "untilByDay"@)
    &&& uint_member(j, "id"@) is Some
}

pub open spec fn read_lesson_hours(j: Json, h: LessonHours) -> bool {
    &&& hour_number(j) == Some(h.number as int)
    &&& str_member(j, "from"@) == Some(h.from@)
    &&& str_member(j, "until"@) == Some(h.until@)
    &&& texts_read(j, "fromByDay"@, h.from_by_day@)
    &&& texts_read(j, "untilByDay"@, h.until_by_day@)
    &&& uint_member(j, "id"@) == Some(h.id as int)
}

pub open spec fn hours_result_fits(j: Json) -> bool {
    &&& status_member(j) is Some
    &&& array_member(j, "data"@) matches Some(items)
    &&& all_fit(items, |h: Json| lesson_hours_fits(h))
}

pub open spec fn read_hours_result(j: Json, h: HoursResult) -> bool {
    &&& status_member(j) == Some(h.status as int)
    &&& array_member(j, "data"@) matches Some(items)
    &&& all_read(items, h.data@, |o: Json, x: LessonHours| read_lesson_hours(o, x))
}

impl LessonHours {
    pub fn from_json(j: &Json) -> (r: Option<LessonHours>)
        ensures
            match r {
                Some(x) => read_lesson_hours(*j, x),
                None => !lesson_hours_fits(*j),
            },
    {
        let number_text = read_str(j, "number")?;
        let number = parse_decimal(&number_text)?;
        let from = read_str(j, "from")?;
        let until = read_str(j, "until")?;
        let from_by_day = read_texts(j, "fromByDay")?;
        let until_by_day = read_texts(j, "untilByDay")?;
        let id = read_uint(j, "id")?;
        Some(LessonHours { number, from, until, from_by_day, until_by_day, id })
    }
}

impl HoursResult {
    pub fn from_json(j: &Json) -> (r: Option<HoursResult>)
        ensures
            match r {
                Some(x) => read_hours_result(*j, x),
                None => !hours_result_fits(*j),
            },
    {
        let status = read_status(j)?;
        let items = crate::json::read_array(j, "data")?;
        let data = parse_list(
            items,
            LessonHours::from_json,
            Ghost(|h: Json| lesson_hours_fits(h)),
            Ghost(|o: Json, x: LessonHours| read_lesson_hours(o, x)),
        )?;
        Some(HoursResult { status, data })
    }
}

/// The class-hours call: its parameters and its result slot.
#[derive(Debug)]
pub struct Hours {
    pub params: SmHoursRequestParams,
    pub result: ResultSlot<HoursResult>,
}

impl Hours {
    pub fn new() -> (r: Self)
        ensures
            r.result is Empty,
            r.params.action.model@ == "main/class-hour"@,
            r.params.action.action@ == "findAll"@,
            r.params.action.parameters@.len() == 1,
            r.params.action.parameters@[0].attributes@.map_values(|a: String| a@) == hour_attributes(),
    {
        Hours { params: SmHoursRequestParams::new(), result: ResultSlot::Empty }
    }

    /// Takes the settled result; fails when it is not settled or was taken.
    pub fn get(&mut self) -> (r: Result<HoursResult, SmError>)
        ensures
            final(self).params == old(self).params,
            match old(self).result {
                ResultSlot::Settled(v) => r == Ok::<HoursResult, SmError>(v) && final(self).result is Consumed,
                _ => r == Err::<HoursResult, SmError>(SmError::UninitializedData) && final(self).result == old(self).result,
            },
    {
        let mut slot = ResultSlot::Consumed;
        std::mem::swap(&mut self.result, &mut slot);
        match slot {
            ResultSlot::Settled(v) => Ok(v),
            other => {
                self.result = other;
                Err(SmError::UninitializedData)
            },
        }
    }
}

} // verus!
