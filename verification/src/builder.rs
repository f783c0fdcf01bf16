//! Value encoders and request builders.
//!
//! The encoders turn native scalars into the tagged wire strings the
//! cluster parses as typed values: a fixed sentinel (`#__` and one
//! letter) followed by the value's canonical text. The builders
//! accumulate a query path step by step, or an append payload, and
//! hand a finished request description to the routing layer.

use crate::text::{dec_int, i64_to_decimal};
use crate::trusted::push_char;
use crate::wire::{appends_one, is_op_step, WireValue};
use vstd::prelude::*;

verus! {

/// Encodes a 64-bit signed integer: `#__L` then its decimal text.
pub fn rama_long(val: i64) -> (r: WireValue)
    ensures
        r matches WireValue::Str(s) && s@ == "#__L"@ + dec_int(val as int),
{
    let mut s = "#__L".to_owned();
    s.append(i64_to_decimal(val).as_str());
    WireValue::Str(s)
}

/// Encodes an 8-bit signed integer: `#__B` then its decimal text.
pub fn rama_byte(val: i8) -> (r: WireValue)
    ensures
        r matches WireValue::Str(s) && s@ == "#__B"@ + dec_int(val as int),
{
    let mut s = "#__B".to_owned();
    s.append(i64_to_decimal(val as i64).as_str());
    WireValue::Str(s)
}

/// Encodes a 16-bit signed integer: `#__S` then its decimal text.
pub fn rama_short(val: i16) -> (r: WireValue)
    ensures
        r matches WireValue::Str(s) && s@ == "#__S"@ + dec_int(val as int),
{
    let mut s = "#__S".to_owned();
    s.append(i64_to_decimal(val as i64).as_str());
    WireValue::Str(s)
}

/// Encodes a single character: `#__C` then the character itself.
pub fn rama_char(val: char) -> (r: WireValue)
    ensures
        r matches WireValue::Str(s) && s@ == "#__C"@ + seq![val],
{
    let mut s = "#__C".to_owned();
    push_char(&mut s, val);
    WireValue::Str(s)
}

/// Encodes a symbolic name (keyword): `#__K` then the name verbatim.
pub fn rama_keyword(val: &str) -> (r: WireValue)
    ensures
        r matches WireValue::Str(s) && s@ == "#__K"@ + val@,
{
    let mut s = "#__K".to_owned();
    s.append(val);
    WireValue::Str(s)
}

/// Encodes a named-function reference: `#__f` then the name verbatim.
pub fn rama_function(name: &str) -> (r: WireValue)
    ensures
        r matches WireValue::Str(s) && s@ == "#__f"@ + name@,
{
    let mut s = "#__f".to_owned();
    s.append(name);
    WireValue::Str(s)
}

/// Encodes a reference to a built-in operations function: the name is
/// namespaced under `Ops.` before encoding.
pub fn rama_ops_function(name: &str) -> (r: WireValue)
    ensures
        r matches WireValue::Str(s) && s@ == "#__f"@ + "Ops."@ + name@,
{
    let mut qualified = "Ops.".to_owned();
    qualified.append(name);
    let r = rama_function(qualified.as_str());
    proof {
        assert("#__f"@ + ("Ops."@ + name@) =~= "#__f"@ + "Ops."@ + name@);
    }
    r
}

/// Builds a query path against a queryable state store, one step at a
/// time. A builder is single-use: the terminal methods consume it.
#[derive(Debug)]
pub struct PStateQueryBuilder {
    pub module: String,
    pub pstate: String,
    pub path: Vec<WireValue>,
}

/// A finished query: the resource to route to, the operation path
/// under that resource, and the path steps that form the request body.
#[derive(Debug)]
pub struct QueryRequest {
    pub module: String,
    pub path_suffix: String,
    pub path: Vec<WireValue>,
}

impl PStateQueryBuilder {
    /// Starts an empty path for the named store of the named resource.
    pub fn new(module: &str, pstate: &str) -> (r: Self)
        ensures
            r.module@ == module@,
            r.pstate@ == pstate@,
            r.path@ == Seq::<WireValue>::empty(),
    {
        PStateQueryBuilder { module: module.to_owned(), pstate: pstate.to_owned(), path: Vec::new() }
    }

    /// Appends an implicit navigation step: the value as-is.
    pub fn nav(self, value: WireValue) -> (r: Self)
        ensures
            r.module == self.module,
            r.pstate == self.pstate,
            r.path@ == self.path@.push(value),
    {
        let mut b = self;
        b.path.push(value);
        b
    }

    /// Appends a key step: the string key as an implicit step.
    pub fn key(self, key: &str) -> (r: Self)
        ensures
            r.module == self.module,
            r.pstate == self.pstate,
            appends_one(self.path@, r.path@),
            r.path@.last() matches WireValue::Str(s) && s@ == key@,
    {
        let r = self.nav(WireValue::Str(key.to_owned()));
        proof {
            assert(r.path@.subrange(0, self.path@.len() as int) =~= self.path@);
        }
        r
    }

    /// Appends a filtering step that applies the named function as a
    /// predicate, encoded as a function reference.
    pub fn filter_pred_fn(self, function_name: &str) -> (r: Self)
        ensures
            r.module == self.module,
            r.pstate == self.pstate,
            appends_one(self.path@, r.path@),
            r.path@.last() matches WireValue::Str(s) && s@ == "#__f"@ + function_name@,
    {
        let r = self.nav(rama_function(function_name));
        proof {
            assert(r.path@.subrange(0, self.path@.len() as int) =~= self.path@);
        }
        r
    }

    /// Appends the explicit step `[op, args...]`: the arguments are
    /// spliced in as the array's own trailing elements.
    fn add_explicit_nav(self, op: &str, args: Vec<WireValue>) -> (r: Self)
        ensures
            r.module == self.module,
            r.pstate == self.pstate,
            appends_one(self.path@, r.path@),
            is_op_step(r.path@.last(), op@, args@),
    {
        let mut items: Vec<WireValue> = Vec::new();
        items.push(WireValue::Str(op.to_owned()));
        let mut rest = args;
        items.append(&mut rest);
        let ghost items_view = items@;
        let mut b = self;
        b.path.push(WireValue::Arr(items));
        proof {
            assert(items_view.skip(1) =~= args@);
            assert(b.path@.subrange(0, self.path@.len() as int) =~= self.path@);
        }
        b
    }

    /// Appends the `all` step: `["all"]`.
    pub fn all(self) -> (r: Self)
        ensures
            r.module == self.module,
            r.pstate == self.pstate,
            appends_one(self.path@, r.path@),
            is_op_step(r.path@.last(), "all"@, Seq::<WireValue>::empty()),
    {
        self.add_explicit_nav("all", Vec::new())
    }

    /// Appends the `must` step: `["must", key1, key2, ...]`.
    pub fn must(self, keys: Vec<WireValue>) -> (r: Self)
        ensures
            r.module == self.module,
            r.pstate == self.pstate,
            appends_one(self.path@, r.path@),
            is_op_step(r.path@.last(), "must"@, keys@),
    {
        self.add_explicit_nav("must", keys)
    }

    /// Appends the `mapVals` step: `["mapVals"]`.
    pub fn map_vals(self) -> (r: Self)
        ensures
            r.module == self.module,
            r.pstate == self.pstate,
            appends_one(self.path@, r.path@),
            is_op_step(r.path@.last(), "mapVals"@, Seq::<WireValue>::empty()),
    {
        self.add_explicit_nav("mapVals", Vec::new())
    }

    /// Appends the `filterSelected` step. The sub-path's steps become
    /// the step's own trailing arguments — `["filterSelected", A, B]`
    /// for a sub-path `[A, B]`, never a nested `[[A, B]]`.
    pub fn filter_selected(self, path_to_filter: Vec<WireValue>) -> (r: Self)
        ensures
            r.module == self.module,
            r.pstate == self.pstate,
            appends_one(self.path@, r.path@),
            is_op_step(r.path@.last(), "filterSelected"@, path_to_filter@),
    {
        self.add_explicit_nav("filterSelected", path_to_filter)
    }

    /// Appends the `subselect` step; the sub-path is spliced exactly
    /// as for `filterSelected`.
    pub fn subselect(self, sub_path: Vec<WireValue>) -> (r: Self)
        ensures
            r.module == self.module,
            r.pstate == self.pstate,
            appends_one(self.path@, r.path@),
            is_op_step(r.path@.last(), "subselect"@, sub_path@),
    {
        self.add_explicit_nav("subselect", sub_path)
    }

    /// Hands the accumulated steps out, for splicing into an enclosing
    /// builder's `filter_selected` or `subselect`.
    pub fn into_path(self) -> (r: Vec<WireValue>)
        ensures
            r@ == self.path@,
    {
        self.path
    }

    /// Finishes the builder as a select-many query: the body is the
    /// path, aimed at the store's `select` operation.
    pub fn select_request(self) -> (r: QueryRequest)
        ensures
            r.module == self.module,
            r.path_suffix@ == "pstate/"@ + self.pstate@ + "/select"@,
            r.path@ == self.path@,
    {
        let mut suffix = "pstate/".to_owned();
        suffix.append(self.pstate.as_str());
        suffix.append("/select");
        QueryRequest { module: self.module, path_suffix: suffix, path: self.path }
    }

    /// Finishes the builder as a select-one query: the body is the
    /// path, aimed at the store's `selectOne` operation. The serving
    /// system itself signals zero or multiple matches.
    pub fn select_one_request(self) -> (r: QueryRequest)
        ensures
            r.module == self.module,
            r.path_suffix@ == "pstate/"@ + self.pstate@ + "/selectOne"@,
            r.path@ == self.path@,
    {
        let mut suffix = "pstate/".to_owned();
        suffix.append(self.pstate.as_str());
        suffix.append("/selectOne");
        QueryRequest { module: self.module, path_suffix: suffix, path: self.path }
    }
}

/// The acknowledgment strength requested for a depot append.
#[derive(Debug, Clone, Copy, PartialEq, Eq, Structural)]
pub enum AckLevel {
    /// Wait until streaming topologies have fully processed the record.
    Ack,
    /// Wait only until the record sits in the depot partition.
    AppendAck,
    /// Do not wait for any acknowledgment.
    NoAck,
}

impl AckLevel {
    /// The level's name on the wire.
    pub open spec fn spec_wire_name(&self) -> Seq<char> {
        match self {
            AckLevel::Ack => "ack"@,
            AckLevel::AppendAck => "appendAck"@,
            AckLevel::NoAck => "none"@,
        }
    }

    /// Renders the level as the wire expects it.
    pub fn wire_name(&self) -> (r: &'static str)
        ensures
            r@ == self.spec_wire_name(),
    {
        match self {
            AckLevel::Ack => "ack",
            AckLevel::AppendAck => "appendAck",
            AckLevel::NoAck => "none",
        }
    }
}

/// Builds an append against a depot. The payload is an opaque tree
/// value; the builder only routes it and records the requested
/// acknowledgment level.
#[derive(Debug)]
pub struct DepotAppendBuilder {
    pub module: String,
    pub depot: String,
    pub data: serde_json::Value,
    pub ack_level: Option<AckLevel>,
}

/// A finished append: the resource to route to, the operation path
/// under that resource, the payload, and the acknowledgment level
/// (`None` leaves the server's default in force).
#[derive(Debug)]
pub struct AppendRequest {
    pub module: String,
    pub path_suffix: String,
    pub data: serde_json::Value,
    pub ack_level: Option<AckLevel>,
}

impl DepotAppendBuilder {
    /// Starts an append of `data` to the named depot of the named
    /// resource, with no acknowledgment level set.
    pub fn new(module: &str, depot: &str, data: serde_json::Value) -> (r: Self)
        ensures
            r.module@ == module@,
            r.depot@ == depot@,
            r.data == data,
            r.ack_level is None,
    {
        DepotAppendBuilder {
            module: module.to_owned(),
            depot: depot.to_owned(),
            data,
            ack_level: None,
        }
    }

    /// Sets the acknowledgment level. Left unset, the server default
    /// applies.
    pub fn ack_level(self, level: AckLevel) -> (r: Self)
        ensures
            r.module == self.module,
            r.depot == self.depot,
            r.data == self.data,
            r.ack_level == Some(level),
    {
        let mut b = self;
        b.ack_level = Some(level);
        b
    }

    /// Finishes the builder: the append is aimed at the depot's
    /// `append` operation.
    pub fn append_request(self) -> (r: AppendRequest)
        ensures
            r.module == self.module,
            r.path_suffix@ == "depot/"@ + self.depot@ + "/append"@,
            r.data == self.data,
            r.ack_level == self.ack_level,
    {
        let mut suffix = "depot/".to_owned();
        suffix.append(self.depot.as_str());
        suffix.append("/append");
        AppendRequest {
            module: self.module,
            path_suffix: suffix,
            data: self.data,
            ack_level: self.ack_level,
        }
    }
}

} // verus!
