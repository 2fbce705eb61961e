//! Scene schema — the types of the scene DSL grammar.
//!
//! Example scene (YAML):
//! ```yaml
//! id: online_meeting
//! version: 1
//! describe:
//!   template: "{participants} people in an online meeting"
//! match:
//!   all:
//!     - { feature: audio.voice_ratio, op: gt, value: 0.4 }
//!   any:
//!     - { feature: context.app, op: in, value: [zoom.us, Teams, Feishu] }
//! priority: 10
//! ```
//! Numbers are fixed-point (`SCALE` = 1.0).

use vstd::prelude::*;

verus! {

/// Description section with template and optional field fillers.
#[derive(Debug)]
pub struct Describe {
    /// Template string, `{field}` placeholders.
    pub template: String,
    /// Optional field mapping (placeholder → feature key / default), in file order.
    pub fields: Vec<(String, Field)>,
}

/// Field filler for describe template.
#[derive(Debug)]
pub struct Field {
    /// Feature key to read value from.
    pub from: String,
    /// Default text when feature absent.
    pub default: Option<String>,
}

/// Match rules — `all` + `any` + `none` conditions.
#[derive(Debug)]
pub struct MatchRules {
    /// All of these conditions must hold.
    pub all: Vec<Condition>,
    /// At least one of these conditions must hold.
    pub any: Vec<Condition>,
    /// None of these must hold.
    pub none: Vec<Condition>,
}

impl Default for MatchRules {
    fn default() -> (r: Self)
        ensures
            r.all@.len() == 0 && r.any@.len() == 0 && r.none@.len() == 0,
    {
        MatchRules { all: Vec::new(), any: Vec::new(), none: Vec::new() }
    }
}

impl MatchRules {
    /// Whether the rule set is fully empty (vacuous truth).
    pub fn is_empty(&self) -> (r: bool)
        ensures
            r == (self.all@.len() == 0 && self.any@.len() == 0 && self.none@.len() == 0),
    {
        self.all.len() == 0 && self.any.len() == 0 && self.none.len() == 0
    }

    /// Every condition (`all`, then `any`, then `none`), for feature-reference
    /// validation.
    pub fn all_conditions(&self) -> (r: Vec<&Condition>)
        ensures
            r@.len() == self.all@.len() + self.any@.len() + self.none@.len(),
            forall|i: int| 0 <= i < r@.len() ==> *r@[i] == (self.all@ + self.any@ + self.none@)[i],
    {
        let mut r: Vec<&Condition> = Vec::new();
        let ghost all = self.all@ + self.any@ + self.none@;
        let mut i: usize = 0;
        while i < self.all.len()
            invariant
                all == self.all@ + self.any@ + self.none@,
                i <= self.all@.len(),
                r@.len() == i,
                forall|j: int| 0 <= j < r@.len() ==> *r@[j] == all[j],
            decreases self.all@.len() - i,
        {
            r.push(&self.all[i]);
            i = i + 1;
        }
        let mut i: usize = 0;
        while i < self.any.len()
            invariant
                all == self.all@ + self.any@ + self.none@,
                i <= self.any@.len(),
                r@.len() == self.all@.len() + i,
                forall|j: int| 0 <= j < r@.len() ==> *r@[j] == all[j],
            decreases self.any@.len() - i,
        {
            r.push(&self.any[i]);
            i = i + 1;
        }
        let mut i: usize = 0;
        while i < self.none.len()
            invariant
                all == self.all@ + self.any@ + self.none@,
                i <= self.none@.len(),
                r@.len() == self.all@.len() + self.any@.len() + i,
                forall|j: int| 0 <= j < r@.len() ==> *r@[j] == all[j],
            decreases self.none@.len() - i,
        {
            r.push(&self.none[i]);
            i = i + 1;
        }
        r
    }
}

/// Single match condition — feature `op` value.
#[derive(Debug)]
pub struct Condition {
    /// Feature key to inspect.
    pub feature: String,
    /// Comparison operator.
    pub op: Op,
    /// Value to compare against.
    pub value: Value,
}

/// Supported comparison operators.
#[derive(Debug, Clone, Copy, PartialEq, Eq, Structural)]
pub enum Op {
    /// Greater than (`>`).
    Gt,
    /// Greater than or equal (`>=`).
    Gte,
    /// Less than (`<`).
    Lt,
    /// Less than or equal (`<=`).
    Lte,
    /// Equal (`==`).
    Eq,
    /// Not equal (`!=`).
    Ne,
    /// Feature value is in a list of options.
    In,
    /// Feature value is NOT in a list.
    NotIn,
}

/// A value in a condition (scalar or list).
#[derive(Debug)]
pub enum Value {
    /// Numeric value (fixed-point).
    Number(i64),
    /// Boolean value.
    Bool(bool),
    /// String (or category label).
    String(String),
    /// List of values (for `in` / `not_in`).
    List(Vec<Value>),
}

impl Value {
    /// Numeric extraction helper.
    pub fn as_f64(&self) -> (r: Option<i64>)
        ensures
            r == match *self {
                Value::Number(n) => Some(n),
                _ => None,
            },
    {
        match self {
            Value::Number(n) => Some(*n),
            _ => None,
        }
    }

    /// Boolean extraction helper.
    pub fn as_bool(&self) -> (r: Option<bool>)
        ensures
            r == match *self {
                Value::Bool(b) => Some(b),
                _ => None,
            },
    {
        match self {
            Value::Bool(b) => Some(*b),
            _ => None,
        }
    }

    /// String extraction helper.
    pub fn as_str(&self) -> (r: Option<&str>)
        ensures
            match *self {
                Value::String(s) => r matches Some(t) && t@ == s@,
                _ => r is None,
            },
    {
        match self {
            Value::String(s) => Some(s.as_str()),
            _ => None,
        }
    }

    /// List extraction helper.
    pub fn as_list(&self) -> (r: Option<&[Value]>)
        ensures
            match *self {
                Value::List(l) => r matches Some(t) && t@ == l@,
                _ => r is None,
            },
    {
        match self {
            Value::List(l) => Some(l.as_slice()),
            _ => None,
        }
    }
}

} // verus!
