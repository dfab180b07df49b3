//! Structured fair-use details of a refused request.

use vstd::prelude::*;

use crate::json::{
    field, field_get, field_remove, fields_view, items_view, json_array, json_object, json_str,
    json_u64, lemma_fields_view, lemma_items_view, remove_field, Json, JsonView,
};
use crate::rate::{first_some, nonblank, nonblank_text, opt_str};

verus! {

/// A lower-cost request that the server suggests in place of a refused one.
#[derive(Debug, Clone, Default, PartialEq)]
pub struct FairUseAlternative {
    pub kind: Option<String>,
    pub label: Option<String>,
    pub cost: Option<u64>,
    pub command: Option<String>,
    pub parameters: Option<Json>,
    /// Product-specific members, in the order of the object they were read
    /// from (for a parsed body, the order of their keys).
    pub extra: Vec<(String, Json)>,
}

/// Why a request was refused, as the server explained it.
#[derive(Debug, Clone, Default, PartialEq)]
pub struct FairUse {
    pub code: Option<String>,
    pub scope: Option<String>,
    pub cost: Option<u64>,
    pub remaining: Option<u64>,
    pub shortfall: Option<u64>,
    pub retry_at: Option<String>,
    pub alternatives: Vec<FairUseAlternative>,
}

pub struct AlternativeView {
    pub kind: Option<Seq<char>>,
    pub label: Option<Seq<char>>,
    pub cost: Option<u64>,
    pub command: Option<Seq<char>>,
    pub parameters: Option<JsonView>,
    pub extra: Seq<(Seq<char>, JsonView)>,
}

pub struct FairUseView {
    pub code: Option<Seq<char>>,
    pub scope: Option<Seq<char>>,
    pub cost: Option<u64>,
    pub remaining: Option<u64>,
    pub shortfall: Option<u64>,
    pub retry_at: Option<Seq<char>>,
    pub alternatives: Seq<AlternativeView>,
}

pub open spec fn opt_json(o: Option<Json>) -> Option<JsonView> {
    match o {
        Some(j) => Some(j.view()),
        None => None,
    }
}

impl FairUseAlternative {
    pub open spec fn view(&self) -> AlternativeView {
        AlternativeView {
            kind: opt_str(self.kind),
            label: opt_str(self.label),
            cost: self.cost,
            command: opt_str(self.command),
            parameters: opt_json(self.parameters),
            extra: fields_view(self.extra@),
        }
    }
}

pub open spec fn alternatives_view(alts: Seq<FairUseAlternative>) -> Seq<AlternativeView> {
    alts.map_values(|a: FairUseAlternative| a.view())
}

impl FairUse {
    pub open spec fn view(&self) -> FairUseView {
        FairUseView {
            code: opt_str(self.code),
            scope: opt_str(self.scope),
            cost: self.cost,
            remaining: self.remaining,
            shortfall: self.shortfall,
            retry_at: opt_str(self.retry_at),
            alternatives: alternatives_view(self.alternatives@),
        }
    }
}

pub open spec fn names_view(names: Seq<&str>) -> Seq<Seq<char>> {
    names.map_values(|n: &str| n@)
}

/// The first of `names` whose member is a string with something left once trimmed.
pub open spec fn object_string_of(fields: Seq<(Seq<char>, JsonView)>, names: Seq<Seq<char>>) -> Option<Seq<char>>
    decreases names.len(),
{
    if names.len() == 0 {
        None
    } else {
        let found = match field_get(fields, names[0]) {
            Some(v) => nonblank(json_str(v)),
            None => None,
        };
        if found is Some {
            found
        } else {
            object_string_of(fields, names.drop_first())
        }
    }
}

/// The first of `names` whose member is an unsigned integer.
pub open spec fn object_u64_of(fields: Seq<(Seq<char>, JsonView)>, names: Seq<Seq<char>>) -> Option<u64>
    decreases names.len(),
{
    if names.len() == 0 {
        None
    } else {
        let found = match field_get(fields, names[0]) {
            Some(v) => json_u64(v),
            None => None,
        };
        if found is Some {
            found
        } else {
            object_u64_of(fields, names.drop_first())
        }
    }
}

/// Takes out `names` in turn until one held a string; the members left and that string.
pub open spec fn remove_string_of(fields: Seq<(Seq<char>, JsonView)>, names: Seq<Seq<char>>) -> (Seq<(Seq<char>, JsonView)>, Option<Seq<char>>)
    decreases names.len(),
{
    if names.len() == 0 {
        (fields, None)
    } else {
        let rest = field_remove(fields, names[0]);
        let found = match field_get(fields, names[0]) {
            Some(v) => json_str(v),
            None => None,
        };
        if found is Some {
            (rest, found)
        } else {
            remove_string_of(rest, names.drop_first())
        }
    }
}

/// Takes out `names` in turn until one held an unsigned integer.
pub open spec fn remove_u64_of(fields: Seq<(Seq<char>, JsonView)>, names: Seq<Seq<char>>) -> (Seq<(Seq<char>, JsonView)>, Option<u64>)
    decreases names.len(),
{
    if names.len() == 0 {
        (fields, None)
    } else {
        let rest = field_remove(fields, names[0]);
        let found = match field_get(fields, names[0]) {
            Some(v) => json_u64(v),
            None => None,
        };
        if found is Some {
            (rest, found)
        } else {
            remove_u64_of(rest, names.drop_first())
        }
    }
}

/// The first of `names` whose member is a non-blank string, trimmed.
pub fn object_string(fields: &Vec<(String, Json)>, names: &[&str]) -> (r: Option<String>)
    ensures
        opt_str(r) == object_string_of(fields_view(fields@), names_view(names@)),
{
    let ghost fv = fields_view(fields@);
    let ghost nv = names_view(names@);
    let mut i: usize = 0;
    assert(nv.skip(0) =~= nv);
    while i < names.len()
        invariant
            i <= names@.len(),
            fv == fields_view(fields@),
            nv == names_view(names@),
            object_string_of(fv, nv) == object_string_of(fv, nv.skip(i as int)),
        decreases names.len() - i,
    {
        let ghost rest = nv.skip(i as int);
        assert(rest.drop_first() =~= nv.skip(i + 1));
        assert(rest[0] == names@[i as int]@);
        let found = match field(fields, names[i]) {
            Some(v) => match v.as_str() {
                Some(s) => nonblank_text(Some(s.clone())),
                None => None,
            },
            None => None,
        };
        if found.is_some() {
            return found;
        }
        i = i + 1;
    }
    assert(nv.skip(i as int).len() == 0);
    None
}

/// The first of `names` whose member is an unsigned integer.
pub fn object_u64(fields: &Vec<(String, Json)>, names: &[&str]) -> (r: Option<u64>)
    ensures
        r == object_u64_of(fields_view(fields@), names_view(names@)),
{
    let ghost fv = fields_view(fields@);
    let ghost nv = names_view(names@);
    let mut i: usize = 0;
    assert(nv.skip(0) =~= nv);
    while i < names.len()
        invariant
            i <= names@.len(),
            fv == fields_view(fields@),
            nv == names_view(names@),
            object_u64_of(fv, nv) == object_u64_of(fv, nv.skip(i as int)),
        decreases names.len() - i,
    {
        let ghost rest = nv.skip(i as int);
        assert(rest.drop_first() =~= nv.skip(i + 1));
        assert(rest[0] == names@[i as int]@);
        let found = match field(fields, names[i]) {
            Some(v) => v.as_u64(),
            None => None,
        };
        if found.is_some() {
            return found;
        }
        i = i + 1;
    }
    assert(nv.skip(i as int).len() == 0);
    None
}

/// Takes out `names` in turn until one held a string, and returns that string.
pub fn remove_string(fields: &mut Vec<(String, Json)>, names: &[&str]) -> (r: Option<String>)
    ensures
        (fields_view(final(fields)@), opt_str(r)) == remove_string_of(
            fields_view(old(fields)@),
            names_view(names@),
        ),
{
    let ghost nv = names_view(names@);
    let ghost goal = remove_string_of(fields_view(fields@), nv);
    let mut i: usize = 0;
    assert(nv.skip(0) =~= nv);
    while i < names.len()
        invariant
            i <= names@.len(),
            nv == names_view(names@),
            goal == remove_string_of(fields_view(fields@), nv.skip(i as int)),
            goal == remove_string_of(fields_view(old(fields)@), nv),
        decreases names.len() - i,
    {
        let ghost rest = nv.skip(i as int);
        assert(rest.drop_first() =~= nv.skip(i + 1));
        assert(rest[0] == names@[i as int]@);
        let ghost prev = fields_view(fields@);
        let removed = remove_field(fields, names[i]);
        let found = match &removed {
            Some(v) => match v.as_str() {
                Some(s) => Some(s.clone()),
                None => None,
            },
            None => None,
        };
        if found.is_some() {
            assert(remove_string_of(prev, rest) == (fields_view(fields@), opt_str(found)));
            return found;
        }
        i = i + 1;
    }
    assert(nv.skip(i as int).len() == 0);
    None
}

/// Takes out `names` in turn until one held an unsigned integer, and returns it.
pub fn remove_u64(fields: &mut Vec<(String, Json)>, names: &[&str]) -> (r: Option<u64>)
    ensures
        (fields_view(final(fields)@), r) == remove_u64_of(fields_view(old(fields)@), names_view(names@)),
{
    let ghost nv = names_view(names@);
    let ghost goal = remove_u64_of(fields_view(fields@), nv);
    let mut i: usize = 0;
    assert(nv.skip(0) =~= nv);
    while i < names.len()
        invariant
            i <= names@.len(),
            nv == names_view(names@),
            goal == remove_u64_of(fields_view(fields@), nv.skip(i as int)),
            goal == remove_u64_of(fields_view(old(fields)@), nv),
        decreases names.len() - i,
    {
        let ghost rest = nv.skip(i as int);
        assert(rest.drop_first() =~= nv.skip(i + 1));
        assert(rest[0] == names@[i as int]@);
        let ghost prev = fields_view(fields@);
        let removed = remove_field(fields, names[i]);
        let found = match &removed {
            Some(v) => v.as_u64(),
            None => None,
        };
        if found.is_some() {
            assert(remove_u64_of(prev, rest) == (fields_view(fields@), found));
            return found;
        }
        i = i + 1;
    }
    assert(nv.skip(i as int).len() == 0);
    None
}


/// What `alternative_from_value` reads from one suggested alternative.
pub open spec fn alternative_of(v: JsonView) -> AlternativeView {
    match json_object(v) {
        None => AlternativeView {
            kind: None,
            label: json_str(v),
            cost: None,
            command: None,
            parameters: None,
            extra: Seq::empty(),
        },
        Some(f0) => {
            let (f1, kind) = remove_string_of(f0, seq!["kind"@, "action"@]);
            let (f2, label) = remove_string_of(f1, seq!["label"@]);
            let (f3, cost) = remove_u64_of(f2, seq!["cost"@]);
            let (f4, command) = remove_string_of(
                f3,
                seq!["command"@, "commandHint"@, "command_hint"@],
            );
            let p = field_get(f4, "parameters"@);
            let f5 = field_remove(f4, "parameters"@);
            let parameters = first_some(p, field_get(f5, "params"@));
            let extra = if p is Some {
                f5
            } else {
                field_remove(f5, "params"@)
            };
            AlternativeView { kind, label, cost, command, parameters, extra }
        },
    }
}

/// Reads one suggested alternative: its known members, and every other member kept as is.
/// A bare string is read as the alternative's label.
pub fn alternative_from_value(value: Json) -> (r: FairUseAlternative)
    ensures
        r.view() == alternative_of(value.view()),
{
    match value {
        Json::Object(fields) => {
            let mut fields = fields;
            let kind_names: &[&str] = &["kind", "action"];
            let label_names: &[&str] = &["label"];
            let cost_names: &[&str] = &["cost"];
            let command_names: &[&str] = &["command", "commandHint", "command_hint"];
            assert(names_view(kind_names@) =~= seq!["kind"@, "action"@]);
            assert(names_view(label_names@) =~= seq!["label"@]);
            assert(names_view(cost_names@) =~= seq!["cost"@]);
            assert(names_view(command_names@) =~= seq!["command"@, "commandHint"@, "command_hint"@]);
            let kind = remove_string(&mut fields, kind_names);
            let label = remove_string(&mut fields, label_names);
            let cost = remove_u64(&mut fields, cost_names);
            let command = remove_string(&mut fields, command_names);
            let parameters = match remove_field(&mut fields, "parameters") {
                Some(p) => Some(p),
                None => remove_field(&mut fields, "params"),
            };
            FairUseAlternative { kind, label, cost, command, parameters, extra: fields }
        },
        other => {
            let label = match other.as_str() {
                Some(s) => Some(s.clone()),
                None => None,
            };
            proof {
                lemma_fields_view(Seq::<(String, Json)>::empty());
            }
            let extra: Vec<(String, Json)> = Vec::new();
            assert(fields_view(extra@) =~= Seq::<(Seq<char>, JsonView)>::empty());
            FairUseAlternative {
                kind: None,
                label,
                cost: None,
                command: None,
                parameters: None,
                extra,
            }
        },
    }
}

/// The members that hold the fair-use details: the object under `fair_use`
/// (or, where that member is absent, under `fairUse`) when it is an object,
/// and the top level otherwise.
pub open spec fn fair_use_fields(root: Seq<(Seq<char>, JsonView)>) -> Seq<(Seq<char>, JsonView)> {
    match first_some(field_get(root, "fair_use"@), field_get(root, "fairUse"@)) {
        Some(v) => match json_object(v) {
            Some(f) => f,
            None => root,
        },
        None => root,
    }
}

pub open spec fn alternatives_of(fields: Seq<(Seq<char>, JsonView)>) -> Seq<AlternativeView> {
    match field_get(fields, "alternatives"@) {
        Some(v) => match json_array(v) {
            Some(items) => items.map_values(|i: JsonView| alternative_of(i)),
            None => Seq::empty(),
        },
        None => Seq::empty(),
    }
}

pub open spec fn fair_use_details(fields: Seq<(Seq<char>, JsonView)>) -> FairUseView {
    FairUseView {
        code: object_string_of(fields, seq!["code"@]),
        scope: object_string_of(fields, seq!["scope"@]),
        cost: object_u64_of(fields, seq!["cost"@]),
        remaining: object_u64_of(fields, seq!["remaining"@]),
        shortfall: object_u64_of(fields, seq!["shortfall"@]),
        retry_at: object_string_of(fields, seq!["retryAt"@, "retry_at"@]),
        alternatives: alternatives_of(fields),
    }
}

/// Whether the details say anything at all.
pub open spec fn fair_use_present(d: FairUseView) -> bool {
    ||| d.code is Some
    ||| d.scope is Some
    ||| d.cost is Some
    ||| d.remaining is Some
    ||| d.shortfall is Some
    ||| d.retry_at is Some
    ||| d.alternatives.len() > 0
}

/// The fair-use details of an error body, where it has any.
pub open spec fn fair_use_of(body: JsonView) -> Option<FairUseView> {
    match json_object(body) {
        None => None,
        Some(root) => {
            let d = fair_use_details(fair_use_fields(root));
            if fair_use_present(d) {
                Some(d)
            } else {
                None
            }
        },
    }
}

fn alternatives_from(fields: &Vec<(String, Json)>) -> (r: Vec<FairUseAlternative>)
    ensures
        alternatives_view(r@) == alternatives_of(fields_view(fields@)),
{
    let mut out: Vec<FairUseAlternative> = Vec::new();
    match field(fields, "alternatives") {
        Some(v) => match v.as_array() {
            Some(items) => {
                proof {
                    lemma_items_view(items@);
                }
                let mut i: usize = 0;
                while i < items.len()
                    invariant
                        i <= items@.len(),
                        out@.len() == i,
                        items_view(items@).len() == items@.len(),
                        forall|k: int|
                            0 <= k < i ==> (#[trigger] out@[k]).view() == alternative_of(
                                items_view(items@)[k],
                            ),
                        forall|k: int| 0 <= k < items@.len() ==> #[trigger] items_view(items@)[k] == items@[k].view(),
                    decreases items.len() - i,
                {
                    let copy = items[i].deep_copy();
                    out.push(alternative_from_value(copy));
                    i = i + 1;
                }
                assert(alternatives_view(out@) =~= items_view(items@).map_values(
                    |j: JsonView| alternative_of(j),
                ));
            },
            None => {
                assert(alternatives_view(out@) =~= Seq::<AlternativeView>::empty());
            },
        },
        None => {
            assert(alternatives_view(out@) =~= Seq::<AlternativeView>::empty());
        },
    }
    out
}

fn details_fields(root: &Vec<(String, Json)>) -> (r: &Vec<(String, Json)>)
    ensures
        fields_view(r@) == fair_use_fields(fields_view(root@)),
{
    let nested = match field(root, "fair_use") {
        Some(v) => Some(v),
        None => field(root, "fairUse"),
    };
    match nested {
        Some(v) => match v.as_object() {
            Some(f) => f,
            None => root,
        },
        None => root,
    }
}

/// Reads the fair-use details of an error body, at its top level or under
/// `fair_use`/`fairUse`; `None` where the body names none of them.
pub fn fair_use_from_body(body: &Json) -> (r: Option<FairUse>)
    ensures
        match r {
            Some(d) => fair_use_of(body.view()) == Some(d.view()),
            None => fair_use_of(body.view()) is None,
        },
{
    let root = match body.as_object() {
        Some(f) => f,
        None => return None,
    };
    let fields = details_fields(root);
    let code_names: &[&str] = &["code"];
    let scope_names: &[&str] = &["scope"];
    let cost_names: &[&str] = &["cost"];
    let remaining_names: &[&str] = &["remaining"];
    let shortfall_names: &[&str] = &["shortfall"];
    let retry_names: &[&str] = &["retryAt", "retry_at"];
    assert(names_view(code_names@) =~= seq!["code"@]);
    assert(names_view(scope_names@) =~= seq!["scope"@]);
    assert(names_view(cost_names@) =~= seq!["cost"@]);
    assert(names_view(remaining_names@) =~= seq!["remaining"@]);
    assert(names_view(shortfall_names@) =~= seq!["shortfall"@]);
    assert(names_view(retry_names@) =~= seq!["retryAt"@, "retry_at"@]);
    let details = FairUse {
        code: object_string(fields, code_names),
        scope: object_string(fields, scope_names),
        cost: object_u64(fields, cost_names),
        remaining: object_u64(fields, remaining_names),
        shortfall: object_u64(fields, shortfall_names),
        retry_at: object_string(fields, retry_names),
        alternatives: alternatives_from(fields),
    };
    let present = details.code.is_some() || details.scope.is_some() || details.cost.is_some()
        || details.remaining.is_some() || details.shortfall.is_some() || details.retry_at.is_some()
        || details.alternatives.len() > 0;
    if present {
        Some(details)
    } else {
        None
    }
}

/// `Some` string member of an object body: the first of `names` that holds non-blank text.
pub open spec fn body_string_of(body: JsonView, names: Seq<Seq<char>>) -> Option<Seq<char>> {
    match json_object(body) {
        Some(fields) => object_string_of(fields, names),
        None => None,
    }
}

/// The first of `names` that holds non-blank text in an object body, trimmed.
pub fn body_string(body: &Json, names: &[&str]) -> (r: Option<String>)
    ensures
        opt_str(r) == body_string_of(body.view(), names_view(names@)),
{
    match body.as_object() {
        Some(fields) => object_string(fields, names),
        None => None,
    }
}

} // verus!
