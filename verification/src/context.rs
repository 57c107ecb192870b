use vstd::prelude::*;

use crate::text::{owned, str_eq, views};

verus! {

/// A value kept in the run context: text, or any other JSON value held as
/// its JSON text.
#[derive(Debug, Clone)]
pub enum ContextValue {
    Text(String),
    Json(String),
}

pub enum ValueView {
    Text(Seq<char>),
    Json(Seq<char>),
}

impl View for ContextValue {
    type V = ValueView;

    open spec fn view(&self) -> ValueView {
        match self {
            ContextValue::Text(s) => ValueView::Text(s@),
            ContextValue::Json(s) => ValueView::Json(s@),
        }
    }
}

/// How a value reads in text: a string as itself, anything else as JSON.
pub open spec fn value_text(v: ValueView) -> Seq<char> {
    match v {
        ValueView::Text(s) => s,
        ValueView::Json(s) => s,
    }
}

/// `serde_json::Value`, carried through as an opaque value.
#[verifier::external_type_specification]
#[verifier::external_body]
pub struct ExJsonValue(serde_json::Value);

/// The text of a JSON string value, `None` for any other value.
pub uninterp spec fn json_str(v: serde_json::Value) -> Option<Seq<char>>;

/// The compact JSON text of a value.
pub uninterp spec fn json_text(v: serde_json::Value) -> Seq<char>;

/// Calls `serde_json::Value::as_str`; the contract names its result
/// `json_str(v)` (the text of a string value, none for other values).
#[verifier::external_body]
pub(crate) fn json_as_str(v: &serde_json::Value) -> (r: Option<String>)
    ensures
        match json_str(*v) {
            Some(t) => r matches Some(x) && x@ == t,
            None => r is None,
        },
{
    v.as_str().map(String::from)
}

/// Calls `ToString::to_string` on a `serde_json::Value` (its `Display`,
/// compact JSON); the contract names the result `json_text(v)`.
#[verifier::external_body]
pub(crate) fn json_to_string(v: &serde_json::Value) -> (r: String)
    ensures
        r@ == json_text(*v),
{
    v.to_string()
}

/// What `serde_json::from_str` reads from a text as a JSON value; none when
/// the text is not JSON.
pub uninterp spec fn json_parsed(text: Seq<char>) -> Option<serde_json::Value>;

/// The member `key` of a JSON value: null when the value is not an object
/// or has no such member.
pub uninterp spec fn json_member(v: serde_json::Value, key: Seq<char>) -> serde_json::Value;

/// The members of a JSON object whose members are all strings, as
/// (name, text) pairs; none for any other value.
pub uninterp spec fn json_string_pairs(v: serde_json::Value) -> Option<Seq<(Seq<char>, Seq<char>)>>;

/// No name occurs twice among the pairs.
pub open spec fn distinct_keys(p: Seq<(Seq<char>, Seq<char>)>) -> bool {
    forall|i: int, j: int| 0 <= i < j < p.len() ==> #[trigger] p[i].0 != #[trigger] p[j].0
}

/// Calls `serde_json::from_str` for a `serde_json::Value`; the contract
/// names the value read `json_parsed(text)` and says the call fails exactly
/// when there is none. The error's text is the error's `Display` and is left
/// unsaid.
#[verifier::external_body]
pub(crate) fn json_parse(text: &str) -> (r: Result<serde_json::Value, String>)
    ensures
        match json_parsed(text@) {
            Some(v) => r matches Ok(x) && x == v,
            None => r is Err,
        },
{
    match serde_json::from_str::<serde_json::Value>(text) {
        Ok(v) => Ok(v),
        Err(e) => Err(e.to_string()),
    }
}

/// Indexes a `serde_json::Value` by a member name (`Index<&str>`, which
/// gives null for a missing member or a non-object) and clones the member;
/// the contract names the result `json_member(v, key)`.
#[verifier::external_body]
pub(crate) fn json_field(v: &serde_json::Value, key: &str) -> (r: serde_json::Value)
    ensures
        r == json_member(*v, key@),
{
    v[key].clone()
}

/// Calls `serde_json::from_value` for a `BTreeMap<String, String>` on a copy
/// of the value and lists the map's entries; the contract names the pairs
/// `json_string_pairs(v)` and claims, as a map holds each key once, that no
/// name occurs twice.
#[verifier::external_body]
pub(crate) fn json_string_map(v: &serde_json::Value) -> (r: Option<Vec<(String, String)>>)
    ensures
        match json_string_pairs(*v) {
            Some(p) => r matches Some(x) && crate::runs::pair_views(x@) == p,
            None => r is None,
        },
        r matches Some(x) ==> distinct_keys(crate::runs::pair_views(x@)),
{
    match serde_json::from_value::<std::collections::BTreeMap<String, String>>(v.clone()) {
        Ok(m) => Some(m.into_iter().collect()),
        Err(_) => None,
    }
}

impl ContextValue {
    /// The context value of a JSON value: a JSON string as its text, any
    /// other value as its JSON text.
    pub fn from_json(v: &serde_json::Value) -> (r: ContextValue)
        ensures
            r@ == match json_str(*v) {
                Some(t) => ValueView::Text(t),
                None => ValueView::Json(json_text(*v)),
            },
    {
        match json_as_str(v) {
            Some(t) => ContextValue::Text(t),
            None => ContextValue::Json(json_to_string(v)),
        }
    }

    /// The value as text: a string as itself, anything else as JSON.
    pub fn text(&self) -> (r: String)
        ensures
            r@ == value_text(self@),
    {
        match self {
            ContextValue::Text(s) => owned(s.as_str()),
            ContextValue::Json(s) => owned(s.as_str()),
        }
    }

    /// A copy of the value.
    pub fn duplicate(&self) -> (r: ContextValue)
        ensures
            r@ == self@,
    {
        match self {
            ContextValue::Text(s) => ContextValue::Text(owned(s.as_str())),
            ContextValue::Json(s) => ContextValue::Json(owned(s.as_str())),
        }
    }
}

pub open spec fn entry_views(v: Seq<(String, ContextValue)>) -> Seq<(Seq<char>, ValueView)> {
    v.map_values(|e: (String, ContextValue)| (e.0@, e.1@))
}

/// Position of the first entry with key `k`.
pub open spec fn key_index(es: Seq<(Seq<char>, ValueView)>, k: Seq<char>) -> Option<int>
    decreases es.len(),
{
    if es.len() == 0 {
        None
    } else if es[0].0 == k {
        Some(0)
    } else {
        match key_index(es.drop_first(), k) {
            Some(i) => Some(i + 1),
            None => None,
        }
    }
}

/// The value of the first entry with key `k`.
pub open spec fn lookup(es: Seq<(Seq<char>, ValueView)>, k: Seq<char>) -> Option<ValueView> {
    match key_index(es, k) {
        Some(i) => Some(es[i].1),
        None => None,
    }
}

/// The entries after setting `k` to `v`: the entry of `k` is replaced in
/// place, or a new one is added at the end.
pub open spec fn set_entry(es: Seq<(Seq<char>, ValueView)>, k: Seq<char>, v: ValueView) -> Seq<(Seq<char>, ValueView)> {
    match key_index(es, k) {
        Some(i) => es.update(i, (k, v)),
        None => es.push((k, v)),
    }
}

pub proof fn lemma_key_index(es: Seq<(Seq<char>, ValueView)>, k: Seq<char>)
    ensures
        match key_index(es, k) {
            Some(i) => 0 <= i < es.len() && es[i].0 == k && forall|j: int| 0 <= j < i ==> es[j].0 != k,
            None => forall|j: int| 0 <= j < es.len() ==> es[j].0 != k,
        },
    decreases es.len(),
{
    if es.len() > 0 {
        lemma_key_index(es.drop_first(), k);
        if es[0].0 != k {
            match key_index(es.drop_first(), k) {
                Some(i) => {
                    assert forall|j: int| 0 <= j < i + 1 implies es[j].0 != k by {
                        if j > 0 {
                            assert(es[j] == es.drop_first()[j - 1]);
                        }
                    }
                },
                None => {
                    assert forall|j: int| 0 <= j < es.len() implies es[j].0 != k by {
                        if j > 0 {
                            assert(es[j] == es.drop_first()[j - 1]);
                        }
                    }
                },
            }
        }
    }
}

pub proof fn lemma_key_index_is(es: Seq<(Seq<char>, ValueView)>, k: Seq<char>, i: int)
    requires
        0 <= i <= es.len(),
        forall|j: int| 0 <= j < i ==> es[j].0 != k,
        i < es.len() ==> es[i].0 == k,
    ensures
        key_index(es, k) == (if i < es.len() { Some(i) } else { None::<int> }),
{
    lemma_key_index(es, k);
    match key_index(es, k) {
        Some(p) => {
            if p < i {
            } else if p > i {
                assert(es[i].0 != k);
            }
        },
        None => {
            if i < es.len() {
                assert(es[i].0 != k);
            }
        },
    }
}

/// No key has more than one entry.
pub open spec fn one_entry_per_key(es: Seq<(Seq<char>, ValueView)>) -> bool {
    forall|i: int, j: int| 0 <= i < j < es.len() ==> #[trigger] es[i].0 != #[trigger] es[j].0
}

/// Setting a key keeps one entry per key.
pub proof fn law_set_keeps_one_entry_per_key(es: Seq<(Seq<char>, ValueView)>, k: Seq<char>, v: ValueView)
    requires
        one_entry_per_key(es),
    ensures
        one_entry_per_key(set_entry(es, k, v)),
{
    lemma_key_index(es, k);
    let r = set_entry(es, k, v);
    match key_index(es, k) {
        Some(p) => {
            assert forall|i: int, j: int| 0 <= i < j < r.len() implies #[trigger] r[i].0 != #[trigger] r[j].0 by {
                if i == p {
                    assert(r[i].0 == es[i].0);
                } else if j == p {
                    assert(r[j].0 == es[j].0);
                }
            }
        },
        None => {
            assert forall|i: int, j: int| 0 <= i < j < r.len() implies #[trigger] r[i].0 != #[trigger] r[j].0 by {
                if j == es.len() {
                    assert(r[i] == es[i]);
                } else {
                    assert(r[i] == es[i] && r[j] == es[j]);
                }
            }
        },
    }
}

/// Position of the first entry with key `key`.
pub fn entry_position(entries: &Vec<(String, ContextValue)>, key: &str) -> (r: Option<usize>)
    ensures
        entry_views(entries@).len() == entries.len(),
        match key_index(entry_views(entries@), key@) {
            Some(i) => r == Some(i as usize) && 0 <= i < entries.len(),
            None => r is None,
        },
{
    let ghost es = entry_views(entries@);
    let mut i: usize = 0;
    while i < entries.len()
        invariant
            i <= entries.len(),
            es == entry_views(entries@),
            es.len() == entries.len(),
            forall|j: int| 0 <= j < i ==> es[j].0 != key@,
        decreases entries.len() - i,
    {
        assert(es[i as int].0 == entries@[i as int].0@);
        if str_eq(entries[i].0.as_str(), key) {
            proof {
                lemma_key_index_is(es, key@, i as int);
            }
            return Some(i);
        }
        i += 1;
    }
    proof {
        lemma_key_index_is(es, key@, i as int);
    }
    None
}

/// Named values shared by the stages of a run, and the run's log lines.
pub struct Context {
    entries: Vec<(String, ContextValue)>,
    logs: Vec<String>,
}

impl View for Context {
    type V = Seq<(Seq<char>, ValueView)>;

    closed spec fn view(&self) -> Seq<(Seq<char>, ValueView)> {
        entry_views(self.entries@)
    }
}

impl Context {
    /// The log lines, oldest first.
    pub closed spec fn log_lines(&self) -> Seq<Seq<char>> {
        views(self.logs@)
    }

    /// An empty context.
    pub fn new() -> (c: Context)
        ensures
            c@ == Seq::<(Seq<char>, ValueView)>::empty(),
            one_entry_per_key(c@),
            c.log_lines() == Seq::<Seq<char>>::empty(),
    {
        let c = Context { entries: Vec::new(), logs: Vec::new() };
        assert(c.log_lines() =~= Seq::<Seq<char>>::empty());
        assert(c@ =~= Seq::<(Seq<char>, ValueView)>::empty());
        c
    }

    fn find(&self, key: &str) -> (r: Option<usize>)
        ensures
            self@.len() == self.entries.len(),
            match key_index(self@, key@) {
                Some(i) => r == Some(i as usize) && 0 <= i < self.entries.len(),
                None => r is None,
            },
    {
        entry_position(&self.entries, key)
    }

    /// Sets `key` to `value`, replacing the value it had.
    pub fn set(&mut self, key: &str, value: ContextValue)
        ensures
            final(self)@ == set_entry(old(self)@, key@, value@),
            one_entry_per_key(old(self)@) ==> one_entry_per_key(final(self)@),
            final(self).log_lines() == old(self).log_lines(),
    {
        let ghost es = self@;
        proof {
            if one_entry_per_key(es) {
                law_set_keeps_one_entry_per_key(es, key@, value@);
            }
        }
        match self.find(key) {
            Some(i) => {
                let ghost vv = value@;
                self.entries.set(i, (owned(key), value));
                assert(self@ =~= es.update(i as int, (key@, vv)));
            },
            None => {
                let ghost vv = value@;
                self.entries.push((owned(key), value));
                assert(self@ =~= es.push((key@, vv)));
            },
        }
    }

    /// Adds a line to the log.
    pub fn append_log(&mut self, line: &str)
        ensures
            final(self)@ == old(self)@,
            final(self).log_lines() == old(self).log_lines().push(line@),
    {
        let ghost ls = self.log_lines();
        self.logs.push(owned(line));
        assert(self.log_lines() =~= ls.push(line@));
    }

    /// A copy of the log lines, oldest first.
    pub fn logs(&self) -> (r: Vec<String>)
        ensures
            views(r@) == self.log_lines(),
    {
        let mut r: Vec<String> = Vec::new();
        let mut i: usize = 0;
        while i < self.logs.len()
            invariant
                i <= self.logs.len(),
                r.len() == i,
                views(r@) == views(self.logs@).take(i as int),
            decreases self.logs.len() - i,
        {
            let ghost before = r@;
            let line = owned(self.logs[i].as_str());
            let ghost lv = line@;
            r.push(line);
            assert(views(r@) =~= views(before).push(lv));
            assert(views(r@) =~= views(self.logs@).take(i + 1));
            i += 1;
        }
        assert(views(self.logs@).take(self.logs.len() as int) =~= views(self.logs@));
        r
    }

    /// The value of `key`, if set.
    pub fn get(&self, key: &str) -> (r: Option<&ContextValue>)
        ensures
            match lookup(self@, key@) {
                Some(v) => r matches Some(x) && x@ == v,
                None => r is None,
            },
    {
        match self.find(key) {
            Some(i) => {
                assert(self@[i as int].1 == self.entries@[i as int].1@);
                Some(&self.entries[i].1)
            },
            None => None,
        }
    }

    /// The text of `key` when it holds a string, and `default` otherwise.
    pub fn get_string(&self, key: &str, default: &str) -> (r: String)
        ensures
            r@ == match lookup(self@, key@) {
                Some(ValueView::Text(s)) => s,
                _ => default@,
            },
    {
        match self.get(key) {
            Some(ContextValue::Text(s)) => owned(s.as_str()),
            _ => owned(default),
        }
    }

    /// A copy of all entries, in the order in which their keys were first set.
    pub fn snapshot(&self) -> (r: Vec<(String, ContextValue)>)
        ensures
            entry_views(r@) == self@,
    {
        let mut r: Vec<(String, ContextValue)> = Vec::new();
        let mut i: usize = 0;
        while i < self.entries.len()
            invariant
                i <= self.entries.len(),
                entry_views(r@) == self@.take(i as int),
            decreases self.entries.len() - i,
        {
            let ghost before = entry_views(r@);
            let e = &self.entries[i];
            r.push((owned(e.0.as_str()), e.1.duplicate()));
            assert(entry_views(r@) =~= before.push((e.0@, e.1@)));
            assert(self@.take(i + 1) =~= self@.take(i as int).push(self@[i as int]));
            i += 1;
        }
        assert(self@.take(self@.len() as int) =~= self@);
        r
    }
}

/// Reading a key right after setting it gives the value just set.
pub proof fn law_get_after_set(es: Seq<(Seq<char>, ValueView)>, k: Seq<char>, v: ValueView)
    ensures
        lookup(set_entry(es, k, v), k) == Some(v),
{
    lemma_key_index(es, k);
    match key_index(es, k) {
        Some(i) => {
            let t = es.update(i, (k, v));
            lemma_key_index_is(t, k, i);
        },
        None => {
            let t = es.push((k, v));
            lemma_key_index_is(t, k, es.len() as int);
        },
    }
}

/// Setting one key leaves the value of every other key as it was.
pub proof fn law_set_keeps_others(es: Seq<(Seq<char>, ValueView)>, k: Seq<char>, v: ValueView, other: Seq<char>)
    requires
        other != k,
    ensures
        lookup(set_entry(es, k, v), other) == lookup(es, other),
{
    lemma_key_index(es, k);
    lemma_key_index(es, other);
    let t = set_entry(es, k, v);
    match key_index(es, other) {
        Some(i) => {
            lemma_key_index_is(t, other, i);
        },
        None => {
            match key_index(es, k) {
                Some(p) => {
                    lemma_key_index_is(t, other, t.len() as int);
                },
                None => {
                    lemma_key_index_is(t, other, t.len() as int);
                },
            }
        },
    }
}

/// How a stage ended.
#[derive(Debug, Clone, Copy, PartialEq, Eq, Structural)]
pub enum StageStatus {
    Success,
    PartialSuccess,
    Retry,
    Fail,
    Skipped,
}

pub open spec fn status_text(s: StageStatus) -> Seq<char> {
    match s {
        StageStatus::Success => "success"@,
        StageStatus::PartialSuccess => "partial_success"@,
        StageStatus::Retry => "retry"@,
        StageStatus::Fail => "fail"@,
        StageStatus::Skipped => "skipped"@,
    }
}

impl StageStatus {
    /// The status as it is written: `success`, `partial_success`, `retry`,
    /// `fail` or `skipped`.
    pub fn as_str(&self) -> (r: &'static str)
        ensures
            r@ == status_text(*self),
    {
        match self {
            StageStatus::Success => "success",
            StageStatus::PartialSuccess => "partial_success",
            StageStatus::Retry => "retry",
            StageStatus::Fail => "fail",
            StageStatus::Skipped => "skipped",
        }
    }
}

/// What a stage produced.
#[derive(Debug, Clone)]
pub struct Outcome {
    pub status: StageStatus,
    pub preferred_label: Option<String>,
    pub suggested_next_ids: Vec<String>,
    /// Context values the stage sets, one entry per key.
    pub context_updates: Vec<(String, ContextValue)>,
    pub notes: Option<String>,
    pub failure_reason: Option<String>,
}

pub struct OutcomeView {
    pub status: StageStatus,
    pub preferred_label: Option<Seq<char>>,
    pub suggested_next_ids: Seq<Seq<char>>,
    pub context_updates: Seq<(Seq<char>, ValueView)>,
    pub notes: Option<Seq<char>>,
    pub failure_reason: Option<Seq<char>>,
}

pub open spec fn opt_view(o: Option<String>) -> Option<Seq<char>> {
    match o {
        Some(s) => Some(s@),
        None => None,
    }
}

impl View for Outcome {
    type V = OutcomeView;

    open spec fn view(&self) -> OutcomeView {
        OutcomeView {
            status: self.status,
            preferred_label: opt_view(self.preferred_label),
            suggested_next_ids: self.suggested_next_ids@.map_values(|s: String| s@),
            context_updates: entry_views(self.context_updates@),
            notes: opt_view(self.notes),
            failure_reason: opt_view(self.failure_reason),
        }
    }
}

impl Outcome {
    fn with_status(status: StageStatus) -> (o: Outcome)
        ensures
            o@ == (OutcomeView {
                status,
                preferred_label: None,
                suggested_next_ids: Seq::empty(),
                context_updates: Seq::empty(),
                notes: None,
                failure_reason: None,
            }),
    {
        let o = Outcome {
            status,
            preferred_label: None,
            suggested_next_ids: Vec::new(),
            context_updates: Vec::new(),
            notes: None,
            failure_reason: None,
        };
        assert(o@.suggested_next_ids =~= Seq::<Seq<char>>::empty());
        assert(o@.context_updates =~= Seq::<(Seq<char>, ValueView)>::empty());
        o
    }

    /// A successful outcome with nothing else set.
    pub fn success() -> (o: Outcome)
        ensures
            o@ == (OutcomeView {
                status: StageStatus::Success,
                preferred_label: None,
                suggested_next_ids: Seq::empty(),
                context_updates: Seq::empty(),
                notes: None,
                failure_reason: None,
            }),
    {
        Outcome::with_status(StageStatus::Success)
    }

    /// A skipped outcome with nothing else set.
    pub fn skipped() -> (o: Outcome)
        ensures
            o@ == (OutcomeView {
                status: StageStatus::Skipped,
                preferred_label: None,
                suggested_next_ids: Seq::empty(),
                context_updates: Seq::empty(),
                notes: None,
                failure_reason: None,
            }),
    {
        Outcome::with_status(StageStatus::Skipped)
    }

    /// A failed outcome with its reason.
    pub fn fail(reason: &str) -> (o: Outcome)
        ensures
            o@ == (OutcomeView {
                status: StageStatus::Fail,
                preferred_label: None,
                suggested_next_ids: Seq::empty(),
                context_updates: Seq::empty(),
                notes: None,
                failure_reason: Some(reason@),
            }),
    {
        let mut o = Outcome::with_status(StageStatus::Fail);
        o.failure_reason = Some(owned(reason));
        o
    }
}

} // verus!
