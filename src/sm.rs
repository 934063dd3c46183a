use vstd::prelude::*;
use crate::errors::SmError;
use crate::json::{
    Json, array_member, lemma_member_at, member, read_str, str_member, take_items, take_member,
    take_member_from,
};
use crate::sm_req::{Datum, all_fit, all_read, datum_fits, read_datum, read_status, status_member};

pub mod hours;
pub mod timetable;

pub use hours::{
    HoursResult, Hours, LessonHours, SmHoursRequestAction, SmHoursRequestActionParams, SmHoursRequestParams,
    hour_attributes, hours_params_json, hours_result_fits, read_hours_result,
};
pub use timetable::{
    Timetable, TimetableBodyParams, TimetableBodyParamsStudent, params_of, timetable_params_json, week_exists,
};

verus! {

/// The bundle marker sent with every request.
pub const BUNDLE_VERSION: &'static str = "fee1dead";

/// The result slot of a module request: empty until the coordinator settles
/// it, and consumed by the one read that takes it.
#[derive(Debug)]
pub enum ResultSlot<T> {
    Empty,
    Settled(T),
    Consumed,
}


/// One module call of a bundle.
#[derive(Debug)]
pub enum ModRequest {
    Timetable(Timetable),
    Hours(Hours),
}

/// A module call's result, parsed and waiting to be settled.
enum Parsed {
    Timetable(Vec<Datum>),
    Hours(HoursResult),
}

/// `p` is what `data` holds for the module call `m`.
spec fn parsed_for(m: ModRequest, data: Json, p: Parsed) -> bool {
    match (m, p) {
        (ModRequest::Timetable(_), Parsed::Timetable(v)) => data matches Json::Array(items) && all_read(
            items@,
            v@,
            |o: Json, x: Datum| read_datum(o, x),
        ),
        (ModRequest::Hours(_), Parsed::Hours(h)) => read_hours_result(data, h),
        _ => false,
    }
}

impl ModRequest {
    pub open spec fn module_name(self) -> Seq<char> {
        "schedules"@
    }

    pub open spec fn endpoint_name(self) -> Seq<char> {
        match self {
            ModRequest::Timetable(_) => "get-actual-lessons"@,
            ModRequest::Hours(_) => "poqa"@,
        }
    }

    /// `j` carries this call's parameters.
    pub open spec fn params_json(self, j: Json) -> bool {
        match self {
            ModRequest::Timetable(t) => timetable_params_json(t.params, j),
            ModRequest::Hours(h) => hours_params_json(h.params, j),
        }
    }

    /// `data` has the shape this call's result has.
    pub open spec fn accepts(self, data: Json) -> bool {
        match self {
            ModRequest::Timetable(_) => data matches Json::Array(items) && all_fit(items@, |o: Json| datum_fits(o)),
            ModRequest::Hours(_) => hours_result_fits(data),
        }
    }

    /// `after` is this call with its result settled from `data`.
    pub open spec fn settled_from(self, data: Json, after: ModRequest) -> bool {
        match (self, after) {
            (ModRequest::Timetable(t), ModRequest::Timetable(a)) => {
                &&& a.params == t.params
                &&& a.result matches ResultSlot::Settled(v)
                &&& data matches Json::Array(items)
                &&& all_read(items@, v@, |o: Json, x: Datum| read_datum(o, x))
            },
            (ModRequest::Hours(h), ModRequest::Hours(a)) => {
                &&& a.params == h.params
                &&& a.result matches ResultSlot::Settled(v)
                &&& read_hours_result(data, v)
            },
            _ => false,
        }
    }

    pub fn get_module_name(&self) -> (r: &'static str)
        ensures
            r@ == self.module_name(),
    {
        "schedules"
    }

    pub fn get_endpoint_name(&self) -> (r: &'static str)
        ensures
            r@ == self.endpoint_name(),
    {
        match self {
            ModRequest::Timetable(_) => "get-actual-lessons",
            ModRequest::Hours(_) => "poqa",
        }
    }

    /// The call's parameters as JSON.
    pub fn get_value(&self) -> (r: Json)
        ensures
            self.params_json(r),
    {
        match self {
            ModRequest::Timetable(t) => t.params.to_json(),
            ModRequest::Hours(h) => h.params.to_json(),
        }
    }

    fn parse(&self, data: &Json) -> (r: Option<Parsed>)
        ensures
            match r {
                Some(p) => parsed_for(*self, *data, p),
                None => !self.accepts(*data),
            },
    {
        match self {
            ModRequest::Timetable(_) => match data {
                Json::Array(items) => match Datum::list_from_json(items) {
                    Some(v) => Some(Parsed::Timetable(v)),
                    None => None,
                },
                _ => None,
            },
            ModRequest::Hours(_) => match HoursResult::from_json(data) {
                Some(h) => Some(Parsed::Hours(h)),
                None => None,
            },
        }
    }

    fn settle(self, p: Parsed, Ghost(data): Ghost<Json>) -> (r: ModRequest)
        requires
            parsed_for(self, data, p),
        ensures
            self.settled_from(data, r),
    {
        match (self, p) {
            (ModRequest::Timetable(t), Parsed::Timetable(v)) => {
                let mut t = t;
                t.result = ResultSlot::Settled(v);
                ModRequest::Timetable(t)
            },
            (ModRequest::Hours(h), Parsed::Hours(v)) => {
                let mut h = h;
                h.result = ResultSlot::Settled(v);
                ModRequest::Hours(h)
            },
            (m, _) => m,
        }
    }
}

/// One call as it is sent: module, endpoint and parameters.
#[derive(Debug)]
pub struct Request {
    pub module_name: String,
    pub endpoint_name: String,
    pub parameters: Json,
}

/// The outbound message: the bundle marker and the calls, in order.
#[derive(Debug)]
pub struct RequestBody {
    pub bundle_version: String,
    pub requests: Vec<Request>,
}

/// `j` is the wire form of `r`: exactly the members `moduleName`,
/// `endpointName` and `parameters`, in that order.
pub open spec fn request_wire(j: Json, r: Request) -> bool {
    &&& j matches Json::Object(fs)
    &&& j->Object_0@.len() == 3
    &&& j->Object_0@[0].0@ == "moduleName"@
    &&& j->Object_0@[0].1 matches Json::Str(s) && s@ == r.module_name@
    &&& j->Object_0@[1].0@ == "endpointName"@
    &&& j->Object_0@[1].1 matches Json::Str(s) && s@ == r.endpoint_name@
    &&& j->Object_0@[2].0@ == "parameters"@
    &&& j->Object_0@[2].1 == r.parameters
}

/// `j` is the wire form of `b`: exactly the members `bundleVersion` and
/// `requests`, in that order.
pub open spec fn body_wire(j: Json, b: RequestBody) -> bool {
    &&& j matches Json::Object(fs)
    &&& j->Object_0@.len() == 2
    &&& j->Object_0@[0].0@ == "bundleVersion"@
    &&& j->Object_0@[0].1 matches Json::Str(s) && s@ == b.bundle_version@
    &&& j->Object_0@[1].0@ == "requests"@
    &&& j->Object_0@[1].1 matches Json::Array(items)
    &&& j->Object_0@[1].1->Array_0@.len() == b.requests@.len()
    &&& forall|i: int| 0 <= i < b.requests@.len() ==> request_wire(#[trigger] j->Object_0@[1].1->Array_0@[i], b.requests@[i])
}

pub open spec fn request_fits(j: Json) -> bool {
    &&& str_member(j, "moduleName"@) is Some
    &&& str_member(j, "endpointName"@) is Some
    &&& member(j, "parameters"@) is Some
}

pub open spec fn read_request(j: Json, r: Request) -> bool {
    &&& str_member(j, "moduleName"@) == Some(r.module_name@)
    &&& str_member(j, "endpointName"@) == Some(r.endpoint_name@)
    &&& member(j, "parameters"@) == Some(r.parameters)
}

pub open spec fn body_fits(j: Json) -> bool {
    &&& str_member(j, "bundleVersion"@) is Some
    &&& array_member(j, "requests"@) matches Some(items)
    &&& forall|i: int| 0 <= i < items.len() ==> request_fits(#[trigger] items[i])
}

pub open spec fn read_body(j: Json, b: RequestBody) -> bool {
    &&& str_member(j, "bundleVersion"@) == Some(b.bundle_version@)
    &&& array_member(j, "requests"@) matches Some(items)
    &&& items.len() == b.requests@.len()
    &&& forall|i: int| 0 <= i < items.len() ==> read_request(#[trigger] items[i], b.requests@[i])
}

/// `b` and `c` hold the same marker and the same calls.
pub open spec fn same_body(b: RequestBody, c: RequestBody) -> bool {
    &&& b.bundle_version@ == c.bundle_version@
    &&& b.requests@.len() == c.requests@.len()
    &&& forall|i: int| 0 <= i < b.requests@.len() ==> {
        &&& (#[trigger] b.requests@[i]).module_name@ == c.requests@[i].module_name@
        &&& b.requests@[i].endpoint_name@ == c.requests@[i].endpoint_name@
        &&& b.requests@[i].parameters == c.requests@[i].parameters
    }
}

/// `r` is the outbound form of the call `m`.
pub open spec fn request_of(r: Request, m: ModRequest) -> bool {
    &&& r.module_name@ == m.module_name()
    &&& r.endpoint_name@ == m.endpoint_name()
    &&& m.params_json(r.parameters)
}

impl Request {
    pub fn new(request: &ModRequest) -> (r: Request)
        ensures
            request_of(r, *request),
    {
        Request {
            module_name: request.get_module_name().to_owned(),
            endpoint_name: request.get_endpoint_name().to_owned(),
            parameters: request.get_value(),
        }
    }

    pub fn to_json(self) -> (r: Json)
        ensures
            request_wire(r, self),
    {
        let mut fields: Vec<(String, Json)> = Vec::new();
        fields.push(("moduleName".to_owned(), Json::Str(self.module_name)));
        fields.push(("endpointName".to_owned(), Json::Str(self.endpoint_name)));
        fields.push(("parameters".to_owned(), self.parameters));
        Json::Object(fields)
    }

    pub fn from_json(j: Json) -> (r: Option<Request>)
        ensures
            match r {
                Some(x) => read_request(j, x),
                None => !request_fits(j),
            },
    {
        let module_name = read_str(&j, "moduleName")?;
        let endpoint_name = read_str(&j, "endpointName")?;
        let parameters = take_member(j, "parameters")?;
        Some(Request { module_name, endpoint_name, parameters })
    }
}

impl RequestBody {
    /// The outbound message for the calls, in order.
    pub fn new(requests: &Vec<ModRequest>) -> (r: RequestBody)
        ensures
            r.bundle_version@ == BUNDLE_VERSION@,
            r.requests@.len() == requests@.len(),
            forall|i: int| 0 <= i < requests@.len() ==> request_of(#[trigger] r.requests@[i], requests@[i]),
    {
        let mut out: Vec<Request> = Vec::new();
        let mut i: usize = 0;
        while i < requests.len()
            invariant
                i <= requests@.len(),
                out@.len() == i,
                forall|k: int| 0 <= k < i ==> request_of(#[trigger] out@[k], requests@[k]),
            decreases requests@.len() - i,
        {
            out.push(Request::new(&requests[i]));
            i = i + 1;
        }
        RequestBody { bundle_version: BUNDLE_VERSION.to_owned(), requests: out }
    }

    pub fn to_json(self) -> (r: Json)
        ensures
            body_wire(r, self),
    {
        let ghost b = self;
        let RequestBody { bundle_version, requests } = self;
        let n = requests.len();
        let mut rest = requests;
        let mut items: Vec<Json> = Vec::new();
        let mut k: usize = 0;
        while rest.len() > 0
            invariant
                k + rest@.len() == b.requests@.len(),
                b.requests@.len() == n,
                rest@ == b.requests@.subrange(k as int, b.requests@.len() as int),
                items@.len() == k,
                forall|i: int| 0 <= i < k ==> request_wire(#[trigger] items@[i], b.requests@[i]),
            decreases rest@.len(),
        {
            let r = rest.remove(0);
            assert(r == b.requests@[k as int]);
            items.push(r.to_json());
            k = k + 1;
        }
        let mut fields: Vec<(String, Json)> = Vec::new();
        fields.push(("bundleVersion".to_owned(), Json::Str(bundle_version)));
        fields.push(("requests".to_owned(), Json::Array(items)));
        Json::Object(fields)
    }

    pub fn from_json(j: Json) -> (r: Option<RequestBody>)
        ensures
            match r {
                Some(x) => read_body(j, x),
                None => !body_fits(j),
            },
    {
        let ghost g = j;
        let bundle_version = read_str(&j, "bundleVersion")?;
        let items = take_items(take_member(j, "requests")?)?;
        let ghost all = items@;
        let n = items.len();
        let mut rest = items;
        let mut requests: Vec<Request> = Vec::new();
        let mut k: usize = 0;
        while rest.len() > 0
            invariant
                array_member(g, "requests"@) == Some(all),
                g == j,
                all.len() == n,
                k + rest@.len() == all.len(),
                rest@ == all.subrange(k as int, all.len() as int),
                requests@.len() == k,
                forall|i: int| 0 <= i < k ==> read_request(#[trigger] all[i], requests@[i]),
            decreases rest@.len(),
        {
            let item = rest.remove(0);
            assert(item == all[k as int]);
            match Request::from_json(item) {
                Some(x) => requests.push(x),
                None => {
                    assert(!request_fits(all[k as int]));
                    assert(k < all.len());
                    assert(!request_fits(array_member(g, "requests"@)->Some_0[k as int]));
                    assert(!body_fits(g));
                    return None;
                },
            }
            k = k + 1;
        }
        Some(RequestBody { bundle_version, requests })
    }
}

/// The class-hours parameters the library sends.
pub open spec fn standard_hours_params(p: SmHoursRequestParams) -> bool {
    &&& p.action.model@ == "main/class-hour"@
    &&& p.action.action@ == "findAll"@
    &&& p.action.parameters@.len() == 1
    &&& p.action.parameters@[0].attributes@.map_values(|a: String| a@) == hour_attributes()
}

/// The action of the class-hours parameters the library sends:
/// `{"model": "main/class-hour", "action": "findAll", "parameters":
/// [{"attributes": ["number", "from", "until", "fromByDay", "untilByDay"]}]}`.
pub open spec fn standard_action_json(a: Json) -> bool {
    &&& a is Object
    &&& a->Object_0@.len() == 3
    &&& a->Object_0@[0].0@ == "model"@
    &&& a->Object_0@[0].1 matches Json::Str(s) && s@ == "main/class-hour"@
    &&& a->Object_0@[1].0@ == "action"@
    &&& a->Object_0@[1].1 matches Json::Str(s) && s@ == "findAll"@
    &&& a->Object_0@[2].0@ == "parameters"@
    &&& a->Object_0@[2].1 is Array
    &&& a->Object_0@[2].1->Array_0@.len() == 1
    &&& a->Object_0@[2].1->Array_0@[0] is Object
    &&& a->Object_0@[2].1->Array_0@[0]->Object_0@.len() == 1
    &&& a->Object_0@[2].1->Array_0@[0]->Object_0@[0].0@ == "attributes"@
    &&& a->Object_0@[2].1->Array_0@[0]->Object_0@[0].1 is Array
    &&& a->Object_0@[2].1->Array_0@[0]->Object_0@[0].1->Array_0@.len() == 5
    &&& forall|k: int| 0 <= k < 5 ==> (#[trigger] a->Object_0@[2].1->Array_0@[0]->Object_0@[0].1->Array_0@[k]
        matches Json::Str(s) && s@ == hour_attributes()[k])
}

/// The class-hours parameters the library sends, as they go on the wire:
/// exactly the member `action`.
pub open spec fn standard_hours_json(j: Json) -> bool {
    &&& j is Object
    &&& j->Object_0@.len() == 1
    &&& j->Object_0@[0].0@ == "action"@
    &&& standard_action_json(j->Object_0@[0].1)
}

/// The wire form of the standard class-hours parameters is the literal one.
pub proof fn lemma_standard_hours_json(p: SmHoursRequestParams, j: Json)
    requires
        standard_hours_params(p),
        hours_params_json(p, j),
    ensures
        standard_hours_json(j),
{
    let a = j->Object_0@[0].1;
    let e = a->Object_0@[2].1->Array_0@[0];
    assert(crate::sm::hours::attributes_json(p.action.parameters@[0], e));
    let attrs = p.action.parameters@[0].attributes@;
    let items = e->Object_0@[0].1->Array_0@;
    let names = attrs.map_values(|a: String| a@);
    assert(names == hour_attributes());
    assert(names.len() == 5);
    assert forall|k: int| 0 <= k < 5 implies (#[trigger] items[k] matches Json::Str(s) && s@ == hour_attributes()[k]) by {
        assert(names[k] == attrs[k]@);
    }
}

impl RequestBody {
    /// The outbound message of a bundle that holds one timetable call.
    pub fn new_timetable_body(id: usize, class_id: usize, week: u32, oyear: Option<i32>) -> (r: Result<RequestBody, SmError>)
        ensures
            match r {
                Ok(b) => {
                    &&& b.bundle_version@ == BUNDLE_VERSION@
                    &&& b.requests@.len() == 1
                    &&& b.requests@[0].module_name@ == "schedules"@
                    &&& b.requests@[0].endpoint_name@ == "get-actual-lessons"@
                    &&& exists|p: TimetableBodyParams, year: int| {
                        &&& (oyear matches Some(y) ==> year == y)
                        &&& week_exists(year, week as int)
                        &&& #[trigger] params_of(p, id, class_id, year, week as int)
                        &&& timetable_params_json(p, b.requests@[0].parameters)
                    }
                },
                Err(e) => e == SmError::InvalidWeek && (oyear matches Some(y) ==> !week_exists(y as int, week as int))
                    && exists|year: int| i32::MIN <= year <= i32::MAX && !#[trigger] week_exists(year, week as int),
            },
    {
        let tt = Timetable::new(id, class_id, week, oyear)?;
        let ghost t = tt;
        let mut manager = RequestManager::new();
        manager.add_timetable(tt)?;
        let b = manager.get_request();
        proof {
            assert(request_of(b.requests@[0], manager._state@[0]));
            let year = if oyear is Some {
                oyear->Some_0 as int
            } else {
                choose|year: int| week_exists(year, week as int) && #[trigger] params_of(t.params, id, class_id, year, week as int)
            };
            assert(params_of(t.params, id, class_id, year, week as int));
        }
        Ok(b)
    }

    /// The outbound message of a bundle that holds one class-hours call.
    pub fn new_hours_body() -> (r: RequestBody)
        ensures
            r.bundle_version@ == BUNDLE_VERSION@,
            r.requests@.len() == 1,
            r.requests@[0].module_name@ == "schedules"@,
            r.requests@[0].endpoint_name@ == "poqa"@,
            standard_hours_json(r.requests@[0].parameters),
    {
        let hours = Hours::new();
        let ghost h = hours;
        let mut manager = RequestManager::new();
        let _ = manager.add_hours(hours);
        let b = manager.get_request();
        proof {
            assert(request_of(b.requests@[0], manager._state@[0]));
            assert(standard_hours_params(h.params));
            lemma_standard_hours_json(h.params, b.requests@[0].parameters);
        }
        b
    }
}

/// Serialising a request body and reading the result back gives the same
/// body: the same marker, and for each call the same module, endpoint and
/// parameters, under the keys `bundleVersion`, `requests`, `moduleName`,
/// `endpointName` and `parameters`.
pub proof fn lemma_request_body_round_trip(b: RequestBody, j: Json, c: RequestBody)
    requires
        body_wire(j, b),
    ensures
        body_fits(j),
        read_body(j, c) ==> same_body(b, c),
{
    reveal_strlit("bundleVersion");
    reveal_strlit("requests");
    reveal_strlit("moduleName");
    reveal_strlit("endpointName");
    reveal_strlit("parameters");
    assert("bundleVersion"@.len() != "requests"@.len());
    assert("moduleName"@.len() != "endpointName"@.len());
    assert("endpointName"@.len() != "parameters"@.len());
    assert("moduleName"@[0] != "parameters"@[0]);
    lemma_member_at(j, "bundleVersion"@, 0);
    lemma_member_at(j, "requests"@, 1);
    let items = j->Object_0@[1].1->Array_0@;
    assert forall|i: int| 0 <= i < items.len() implies request_fits(#[trigger] items[i]) && read_request(
        items[i],
        b.requests@[i],
    ) by {
        assert(request_wire(items[i], b.requests@[i]));
        lemma_member_at(items[i], "moduleName"@, 0);
        lemma_member_at(items[i], "endpointName"@, 1);
        lemma_member_at(items[i], "parameters"@, 2);
    }
    if read_body(j, c) {
        assert forall|i: int| 0 <= i < b.requests@.len() implies {
            &&& (#[trigger] b.requests@[i]).module_name@ == c.requests@[i].module_name@
            &&& b.requests@[i].endpoint_name@ == c.requests@[i].endpoint_name@
            &&& b.requests@[i].parameters == c.requests@[i].parameters
        } by {
            assert(read_request(items[i], b.requests@[i]));
            assert(read_request(items[i], c.requests@[i]));
        }
    }
}

/// The result of one call: its status and its raw data.
#[derive(Debug)]
pub struct CallResult {
    pub status: u16,
    pub data: Json,
}

/// The inbound message: one result per call, in call order, and advisory
/// messages.
#[derive(Debug)]
pub struct ResultBody {
    pub results: Vec<CallResult>,
    pub system_status_messages: Vec<Json>,
}

pub open spec fn call_result_fits(j: Json) -> bool {
    status_member(j) is Some && member(j, "data"@) is Some
}

pub open spec fn read_call_result(j: Json, r: CallResult) -> bool {
    status_member(j) == Some(r.status as int) && member(j, "data"@) == Some(r.data)
}

/// The advisory messages: absent or `null` reads as none.
pub open spec fn messages_member(j: Json) -> Option<Seq<Json>> {
    match member(j, "systemStatusMessages"@) {
        None => Some(seq![]),
        Some(Json::Null) => Some(seq![]),
        Some(Json::Array(items)) => Some(items@),
        _ => None,
    }
}

pub open spec fn result_body_fits(j: Json) -> bool {
    &&& array_member(j, "results"@) matches Some(items)
    &&& forall|i: int| 0 <= i < items.len() ==> call_result_fits(#[trigger] items[i])
    &&& messages_member(j) is Some
}

pub open spec fn read_result_body(j: Json, b: ResultBody) -> bool {
    &&& array_member(j, "results"@) matches Some(items)
    &&& items.len() == b.results@.len()
    &&& forall|i: int| 0 <= i < items.len() ==> read_call_result(#[trigger] items[i], b.results@[i])
    &&& messages_member(j) == Some(b.system_status_messages@)
}

impl CallResult {
    pub fn from_json(j: Json) -> (r: Option<CallResult>)
        ensures
            match r {
                Some(x) => read_call_result(j, x),
                None => !call_result_fits(j),
            },
    {
        let status = read_status(&j)?;
        let data = take_member(j, "data")?;
        Some(CallResult { status, data })
    }
}

impl ResultBody {
    pub fn from_json(j: Json) -> (r: Option<ResultBody>)
        ensures
            match r {
                Some(x) => read_result_body(j, x),
                None => !result_body_fits(j),
            },
    {
        let ghost g = j;
        let mut fields = match j {
            Json::Object(fields) => fields,
            _ => return None,
        };
        proof {
            reveal_strlit("results");
            reveal_strlit("systemStatusMessages");
            assert("results"@.len() != "systemStatusMessages"@.len());
        }
        let results_json = take_member_from(&mut fields, "results");
        let messages_json = take_member_from(&mut fields, "systemStatusMessages");
        let system_status_messages = match messages_json {
            None => Vec::new(),
            Some(Json::Null) => Vec::new(),
            Some(Json::Array(items)) => items,
            _ => return None,
        };
        assert(messages_member(g) == Some(system_status_messages@));
        let items = match results_json {
            Some(Json::Array(items)) => items,
            _ => return None,
        };
        let ghost all = items@;
        let n = items.len();
        let mut rest = items;
        let mut results: Vec<CallResult> = Vec::new();
        let mut k: usize = 0;
        while rest.len() > 0
            invariant
                array_member(g, "results"@) == Some(all),
                g == j,
                all.len() == n,
                k + rest@.len() == all.len(),
                rest@ == all.subrange(k as int, all.len() as int),
                results@.len() == k,
                forall|i: int| 0 <= i < k ==> read_call_result(#[trigger] all[i], results@[i]),
            decreases rest@.len(),
        {
            let item = rest.remove(0);
            assert(item == all[k as int]);
            match CallResult::from_json(item) {
                Some(x) => results.push(x),
                None => {
                    assert(!call_result_fits(array_member(g, "results"@)->Some_0[k as int]));
                    return None;
                },
            }
            k = k + 1;
        }
        Some(ResultBody { results, system_status_messages })
    }
}

/// A status in `200..300`.
pub open spec fn status_ok(s: u16) -> bool {
    200 <= s < 300
}

/// Correlation fails at call `i`: its result is missing, has a bad status,
/// or does not have the shape the call expects.
pub open spec fn fails_at(reqs: Seq<ModRequest>, results: Seq<CallResult>, i: int) -> bool {
    i >= results.len() || !status_ok(results[i].status) || !reqs[i].accepts(results[i].data)
}

/// Every call has a result that can settle it.
pub open spec fn correlates(reqs: Seq<ModRequest>, results: Seq<CallResult>) -> bool {
    forall|i: int| 0 <= i < reqs.len() ==> !#[trigger] fails_at(reqs, results, i)
}

/// `e` is the error that call `i` fails with.
pub open spec fn error_at(reqs: Seq<ModRequest>, results: Seq<CallResult>, i: int, e: SmError) -> bool {
    if i >= results.len() {
        e == SmError::MissingResult
    } else if !status_ok(results[i].status) {
        e == SmError::NonvalidStatusCode { statuscode: results[i].status }
    } else {
        e matches SmError::ResultParseError { endpoint } && endpoint@ == reqs[i].endpoint_name()
    }
}

/// Registers the calls of one bundle, builds the outbound message and
/// settles each call from the result at its own position.
#[derive(Debug)]
pub struct RequestManager {
    pub _state: Vec<ModRequest>,
}

impl RequestManager {
    pub fn new() -> (r: Self)
        ensures
            r._state@.len() == 0,
    {
        RequestManager { _state: Vec::new() }
    }

    pub fn add_timetable(&mut self, tt: Timetable) -> (r: Result<(), SmError>)
        ensures
            r is Ok,
            final(self)._state@ == old(self)._state@.push(ModRequest::Timetable(tt)),
    {
        self._state.push(ModRequest::Timetable(tt));
        Ok(())
    }

    pub fn add_hours(&mut self, hrs: Hours) -> (r: Result<(), SmError>)
        ensures
            r is Ok,
            final(self)._state@ == old(self)._state@.push(ModRequest::Hours(hrs)),
    {
        self._state.push(ModRequest::Hours(hrs));
        Ok(())
    }

    /// The outbound message for the registered calls, in registration order.
    pub fn get_request(&self) -> (r: RequestBody)
        ensures
            r.bundle_version@ == BUNDLE_VERSION@,
            r.requests@.len() == self._state@.len(),
            forall|i: int| 0 <= i < self._state@.len() ==> request_of(#[trigger] r.requests@[i], self._state@[i]),
    {
        RequestBody::new(&self._state)
    }

    /// Settles every registered call from the result at its own position.
    /// The batch is all or nothing: when a result is missing, has a status
    /// outside `200..300` or does not have the expected shape, no call is
    /// settled and the error of the first such call is returned.
    pub fn get_results(&mut self, result: ResultBody) -> (r: Result<(), SmError>)
        ensures
            match r {
                Ok(()) => {
                    &&& correlates(old(self)._state@, result.results@)
                    &&& final(self)._state@.len() == old(self)._state@.len()
                    &&& forall|i: int| 0 <= i < old(self)._state@.len() ==> (#[trigger] old(self)._state@[i]).settled_from(
                        result.results@[i].data,
                        final(self)._state@[i],
                    )
                },
                Err(e) => {
                    &&& final(self)._state@ == old(self)._state@
                    &&& exists|i: int| 0 <= i < old(self)._state@.len() && #[trigger] fails_at(old(self)._state@, result.results@, i)
                        && (forall|k: int| 0 <= k < i ==> !fails_at(old(self)._state@, result.results@, k))
                        && error_at(old(self)._state@, result.results@, i, e)
                },
            },
    {
        let ghost reqs = self._state@;
        let ghost results = result.results@;
        let n = self._state.len();
        let mut staged: Vec<Parsed> = Vec::new();
        let mut i: usize = 0;
        while i < n
            invariant
                n == reqs.len(),
                self._state@ == reqs,
                results == result.results@,
                i <= n,
                staged@.len() == i,
                forall|k: int| 0 <= k < i ==> !#[trigger] fails_at(reqs, results, k),
                forall|k: int| 0 <= k < i ==> parsed_for(reqs[k], results[k].data, #[trigger] staged@[k]),
            decreases n - i,
        {
            if i >= result.results.len() {
                assert(fails_at(reqs, results, i as int) && error_at(reqs, results, i as int, SmError::MissingResult));
                return Err(SmError::MissingResult);
            }
            let status = result.results[i].status;
            if status < 200 || status >= 300 {
                let e = SmError::NonvalidStatusCode { statuscode: status };
                assert(fails_at(reqs, results, i as int) && error_at(reqs, results, i as int, e));
                return Err(e);
            }
            match self._state[i].parse(&result.results[i].data) {
                Some(p) => staged.push(p),
                None => {
                    let e = SmError::ResultParseError { endpoint: self._state[i].get_endpoint_name().to_owned() };
                    assert(fails_at(reqs, results, i as int) && error_at(reqs, results, i as int, e));
                    return Err(e);
                },
            }
            i = i + 1;
        }
        let mut rest: Vec<ModRequest> = Vec::new();
        std::mem::swap(&mut self._state, &mut rest);
        let ghost all_staged = staged@;
        let mut k: usize = 0;
        while rest.len() > 0
            invariant
                n == reqs.len(),
                results == result.results@,
                forall|m: int| 0 <= m < n ==> !#[trigger] fails_at(reqs, results, m),
                all_staged.len() == n,
                forall|m: int| 0 <= m < n ==> parsed_for(reqs[m], results[m].data, #[trigger] all_staged[m]),
                k + rest@.len() == n,
                rest@ == reqs.subrange(k as int, n as int),
                staged@ == all_staged.subrange(k as int, n as int),
                self._state@.len() == k,
                forall|m: int| 0 <= m < k ==> (#[trigger] reqs[m]).settled_from(results[m].data, self._state@[m]),
            decreases rest@.len(),
        {
            let req = rest.remove(0);
            let p = staged.remove(0);
            assert(req == reqs[k as int]);
            assert(p == all_staged[k as int]);
            self._state.push(req.settle(p, Ghost(results[k as int].data)));
            k = k + 1;
        }
        Ok(())
    }
}

/// With as many results as calls, each with a status in `200..300` and the
/// shape its call expects, the batch correlates: every call is then settled
/// from the result at its own position.
pub proof fn lemma_correlation_order(reqs: Seq<ModRequest>, results: Seq<CallResult>)
    requires
        results.len() == reqs.len(),
        forall|i: int| 0 <= i < results.len() ==> status_ok(#[trigger] results[i].status) && reqs[i].accepts(
            results[i].data,
        ),
    ensures
        correlates(reqs, results),
{
}

/// One result with a status outside `200..300` is enough for the batch not
/// to correlate, and then no call is settled.
pub proof fn lemma_atomic_failure(reqs: Seq<ModRequest>, results: Seq<CallResult>, i: int)
    requires
        0 <= i < reqs.len(),
        i < results.len(),
        !status_ok(results[i].status),
    ensures
        !correlates(reqs, results),
{
    assert(fails_at(reqs, results, i));
}

/// With fewer results than calls the batch does not correlate.
pub proof fn lemma_missing_result(reqs: Seq<ModRequest>, results: Seq<CallResult>)
    requires
        results.len() < reqs.len(),
    ensures
        !correlates(reqs, results),
{
    assert(fails_at(reqs, results, results.len() as int));
}

} // verus!
