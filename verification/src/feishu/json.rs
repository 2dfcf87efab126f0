//! JSON values.

use vstd::prelude::*;
use crate::text::same_text;

verus! {

/// A JSON value. An object keeps its members in the order in which they were
/// put in.
#[derive(Debug, PartialEq, Eq)]
pub enum Json {
    Null,
    Bool(bool),
    /// A whole number.
    Int(i128),
    /// Any other number, as it is written.
    Real(String),
    Text(String),
    List(Vec<Json>),
    Object(Vec<(String, Json)>),
}

#[verifier::ext_equal]
pub enum JsonView {
    Null,
    Bool(bool),
    Int(int),
    Real(Seq<char>),
    Text(Seq<char>),
    List(Seq<JsonView>),
    Object(Seq<(Seq<char>, JsonView)>),
}

impl View for Json {
    type V = JsonView;

    open spec fn view(&self) -> JsonView {
        json_view(*self)
    }
}

pub open spec fn json_view(j: Json) -> JsonView
    decreases j,
{
    match j {
        Json::Null => JsonView::Null,
        Json::Bool(b) => JsonView::Bool(b),
        Json::Int(n) => JsonView::Int(n as int),
        Json::Real(s) => JsonView::Real(s@),
        Json::Text(s) => JsonView::Text(s@),
        Json::List(v) => JsonView::List(
            Seq::new(v@.len(), |i: int| if 0 <= i < v@.len() { json_view(v@[i]) } else { JsonView::Null }),
        ),
        Json::Object(v) => JsonView::Object(
            Seq::new(
                v@.len(),
                |i: int|
                    if 0 <= i < v@.len() {
                        (v@[i].0@, json_view(v@[i].1))
                    } else {
                        (Seq::empty(), JsonView::Null)
                    },
            ),
        ),
    }
}

pub open spec fn list_view(v: Seq<Json>) -> Seq<JsonView> {
    Seq::new(v.len(), |i: int| v[i]@)
}

pub open spec fn members_view(v: Seq<(String, Json)>) -> Seq<(Seq<char>, JsonView)> {
    Seq::new(v.len(), |i: int| (v[i].0@, v[i].1@))
}

/// The place of the first member with this key.
pub open spec fn key_at(m: Seq<(Seq<char>, JsonView)>, key: Seq<char>, from: int) -> Option<int>
    decreases m.len() - from,
{
    if from >= m.len() {
        None
    } else if m[from].0 == key {
        Some(from)
    } else {
        key_at(m, key, from + 1)
    }
}

impl JsonView {
    /// An object without members.
    pub open spec fn object() -> JsonView {
        JsonView::Object(Seq::empty())
    }

    /// The object with a member more.
    pub open spec fn with(self, key: Seq<char>, value: JsonView) -> JsonView {
        match self {
            JsonView::Object(m) => JsonView::Object(m.push((key, value))),
            other => other,
        }
    }

    pub open spec fn with_text(self, key: Seq<char>, value: Seq<char>) -> JsonView {
        self.with(key, JsonView::Text(value))
    }

    /// The member of an object.
    pub open spec fn get(self, key: Seq<char>) -> Option<JsonView> {
        match self {
            JsonView::Object(m) => match key_at(m, key, 0) {
                Some(i) => Some(m[i].1),
                None => None,
            },
            _ => None,
        }
    }

    /// The text that the value is, if it is one.
    pub open spec fn as_text(self) -> Option<Seq<char>> {
        match self {
            JsonView::Text(s) => Some(s),
            _ => None,
        }
    }

    /// The number that the value is, if it is one that fits.
    pub open spec fn as_number(self) -> Option<int> {
        match self {
            JsonView::Int(n) => if 0 <= n <= u64::MAX { Some(n) } else { None },
            _ => None,
        }
    }

    pub open spec fn get_text(self, key: Seq<char>) -> Option<Seq<char>> {
        match self.get(key) {
            Some(v) => v.as_text(),
            None => None,
        }
    }

    pub open spec fn get_number(self, key: Seq<char>) -> Option<int> {
        match self.get(key) {
            Some(v) => v.as_number(),
            None => None,
        }
    }

    /// The member of a member.
    pub open spec fn get2(self, a: Seq<char>, b: Seq<char>) -> Option<JsonView> {
        match self.get(a) {
            Some(v) => v.get(b),
            None => None,
        }
    }

    pub open spec fn get2_text(self, a: Seq<char>, b: Seq<char>) -> Option<Seq<char>> {
        match self.get2(a, b) {
            Some(v) => v.as_text(),
            None => None,
        }
    }

    /// The text of a member of a member of a member.
    pub open spec fn get3_text(self, a: Seq<char>, b: Seq<char>, c: Seq<char>) -> Option<Seq<char>> {
        match self.get2(a, b) {
            Some(v) => v.get_text(c),
            None => None,
        }
    }

    /// The object with the member set: replaced if it is there, else added.
    pub open spec fn set(self, key: Seq<char>, value: JsonView) -> JsonView {
        match self {
            JsonView::Object(m) => match key_at(m, key, 0) {
                Some(i) => JsonView::Object(m.update(i, (key, value))),
                None => JsonView::Object(m.push((key, value))),
            },
            other => other,
        }
    }

    /// The object with the first `n` of the members set.
    pub open spec fn set_all(self, members: Seq<(Seq<char>, JsonView)>, n: nat) -> JsonView
        decreases n,
    {
        if n == 0 {
            self
        } else {
            self.set_all(members, (n - 1) as nat).set(members[n - 1].0, members[n - 1].1)
        }
    }

    /// The members of the second object set in the first.
    pub open spec fn merged(self, other: JsonView) -> JsonView {
        match (self, other) {
            (JsonView::Object(_), JsonView::Object(m)) => self.set_all(m, m.len()),
            _ => self,
        }
    }
}

pub proof fn key_at_facts(m: Seq<(Seq<char>, JsonView)>, key: Seq<char>, from: int)
    requires
        0 <= from,
    ensures
        match key_at(m, key, from) {
            Some(i) => from <= i < m.len() && m[i].0 == key,
            None => forall|i: int| from <= i < m.len() ==> (#[trigger] m[i]).0 != key,
        },
    decreases m.len() - from,
{
    if from < m.len() && m[from].0 != key {
        key_at_facts(m, key, from + 1);
    }
}

/// What was set is what a member holds.
pub proof fn get_after_set(j: JsonView, key: Seq<char>, value: JsonView)
    requires
        j is Object,
    ensures
        j.set(key, value).get(key) == Some(value),
        forall|other: Seq<char>| other != key ==> #[trigger] j.set(key, value).get(other) == j.get(other),
{
    let m = j->Object_0;
    key_at_facts(m, key, 0);
    let n = j.set(key, value)->Object_0;
    key_at_facts(n, key, 0);
    match key_at(m, key, 0) {
        Some(i) => {
            key_at_first(m, key, 0);
            key_at_same_keys(m, n, key, 0);
            assert forall|other: Seq<char>| other != key implies #[trigger] j.set(key, value).get(other) == j.get(other) by {
                key_at_same_keys(m, n, other, 0);
                key_at_facts(m, other, 0);
            }
        },
        None => {
            assert(n[m.len() as int].0 == key);
            key_at_pushed(m, key, value, key, 0);
            assert forall|other: Seq<char>| other != key implies #[trigger] j.set(key, value).get(other) == j.get(other) by {
                key_at_pushed(m, key, value, other, 0);
                key_at_facts(m, other, 0);
            }
        },
    }
}

proof fn key_at_first(m: Seq<(Seq<char>, JsonView)>, key: Seq<char>, from: int)
    requires
        0 <= from,
    ensures
        key_at(m, key, from) matches Some(i) ==> forall|k: int| from <= k < i ==> (#[trigger] m[k]).0 != key,
    decreases m.len() - from,
{
    if from < m.len() && m[from].0 != key {
        key_at_first(m, key, from + 1);
    }
}

proof fn key_at_same_keys(m: Seq<(Seq<char>, JsonView)>, n: Seq<(Seq<char>, JsonView)>, key: Seq<char>, from: int)
    requires
        m.len() == n.len(),
        forall|i: int| 0 <= i < m.len() ==> (#[trigger] m[i]).0 == n[i].0,
        0 <= from,
    ensures
        key_at(m, key, from) == key_at(n, key, from),
    decreases m.len() - from,
{
    if from < m.len() {
        assert(m[from].0 == n[from].0);
        key_at_same_keys(m, n, key, from + 1);
    }
}

proof fn key_at_pushed(m: Seq<(Seq<char>, JsonView)>, key: Seq<char>, value: JsonView, other: Seq<char>, from: int)
    requires
        0 <= from <= m.len(),
    ensures
        key_at(m.push((key, value)), other, from) == match key_at(m, other, from) {
            Some(i) => Some(i),
            None => if key == other { Some(m.len() as int) } else { None },
        },
    decreases m.len() - from,
{
    reveal_with_fuel(key_at, 3);
    let n = m.push((key, value));
    if from < m.len() {
        assert(n[from] == m[from]);
        key_at_pushed(m, key, value, other, from + 1);
    }
}

impl Json {
    pub fn text(s: &str) -> (r: Json)
        ensures
            r@ == JsonView::Text(s@),
    {
        Json::Text(s.to_owned())
    }

    pub fn number(n: u64) -> (r: Json)
        ensures
            r@ == JsonView::Int(n as int),
    {
        Json::Int(n as i128)
    }

    pub fn list(items: Vec<Json>) -> (r: Json)
        ensures
            r@ == JsonView::List(list_view(items@)),
    {
        let r = Json::List(items);
        assert(r@->List_0 =~= list_view(items@));
        r
    }

    /// An object without members.
    pub fn object() -> (r: Json)
        ensures
            r@ == JsonView::object(),
    {
        let r = Json::Object(Vec::new());
        assert(r@->Object_0 =~= Seq::empty());
        r
    }

    /// The object with a member more.
    pub fn with(self, key: &str, value: Json) -> (r: Json)
        ensures
            r@ == self@.with(key@, value@),
    {
        match self {
            Json::Object(members) => {
                let ghost before = members@;
                let mut members = members;
                members.push((key.to_owned(), value));
                let r = Json::Object(members);
                assert(r@->Object_0 =~= (Json::Object(members))@->Object_0);
                assert(r@->Object_0 =~= self@->Object_0.push((key@, value@)));
                r
            },
            other => other,
        }
    }

    pub fn with_text(self, key: &str, value: &str) -> (r: Json)
        ensures
            r@ == self@.with_text(key@, value@),
    {
        self.with(key, Json::text(value))
    }

    /// The member of an object.
    pub fn get(&self, key: &str) -> (r: Option<&Json>)
        ensures
            match r {
                Some(v) => self@.get(key@) == Some(v@),
                None => self@.get(key@) is None,
            },
    {
        match self {
            Json::Object(members) => {
                let ghost m = self@->Object_0;
                let mut i: usize = 0;
                while i < members.len()
                    invariant
                        self@ == JsonView::Object(m),
                        m =~= members_view(members@),
                        i <= members@.len(),
                        key_at(m, key@, 0) == key_at(m, key@, i as int),
                    decreases members@.len() - i,
                {
                    assert(m[i as int] == (members@[i as int].0@, members@[i as int].1@));
                    if same_text(members[i].0.as_str(), key) {
                        return Some(&members[i].1);
                    }
                    i = i + 1;
                }
                None
            },
            _ => None,
        }
    }

    pub fn as_str(&self) -> (r: Option<&str>)
        ensures
            match r {
                Some(s) => self@.as_text() == Some(s@),
                None => self@.as_text() is None,
            },
    {
        match self {
            Json::Text(s) => Some(s.as_str()),
            _ => None,
        }
    }

    pub fn as_u64(&self) -> (r: Option<u64>)
        ensures
            match r {
                Some(n) => self@.as_number() == Some(n as int),
                None => self@.as_number() is None,
            },
    {
        match self {
            Json::Int(n) => if 0 <= *n && *n <= u64::MAX as i128 {
                Some(*n as u64)
            } else {
                None
            },
            _ => None,
        }
    }

    pub fn get_str(&self, key: &str) -> (r: Option<&str>)
        ensures
            match r {
                Some(s) => self@.get_text(key@) == Some(s@),
                None => self@.get_text(key@) is None,
            },
    {
        match self.get(key) {
            Some(v) => v.as_str(),
            None => None,
        }
    }

    pub fn get_u64(&self, key: &str) -> (r: Option<u64>)
        ensures
            match r {
                Some(n) => self@.get_number(key@) == Some(n as int),
                None => self@.get_number(key@) is None,
            },
    {
        match self.get(key) {
            Some(v) => v.as_u64(),
            None => None,
        }
    }

    /// The member of a member.
    pub fn get2(&self, a: &str, b: &str) -> (r: Option<&Json>)
        ensures
            match r {
                Some(v) => self@.get2(a@, b@) == Some(v@),
                None => self@.get2(a@, b@) is None,
            },
    {
        match self.get(a) {
            Some(v) => v.get(b),
            None => None,
        }
    }

    pub fn get2_str(&self, a: &str, b: &str) -> (r: Option<&str>)
        ensures
            match r {
                Some(s) => self@.get2_text(a@, b@) == Some(s@),
                None => self@.get2_text(a@, b@) is None,
            },
    {
        match self.get2(a, b) {
            Some(v) => v.as_str(),
            None => None,
        }
    }

    /// The text of a member of a member of a member.
    pub fn get3_str(&self, a: &str, b: &str, c: &str) -> (r: Option<&str>)
        ensures
            match r {
                Some(s) => self@.get3_text(a@, b@, c@) == Some(s@),
                None => self@.get3_text(a@, b@, c@) is None,
            },
    {
        match self.get2(a, b) {
            Some(v) => v.get_str(c),
            None => None,
        }
    }

    /// A value of its own with the same contents.
    pub fn copy(&self) -> (r: Json)
        ensures
            r@ == self@,
        decreases self,
    {
        match self {
            Json::Null => Json::Null,
            Json::Bool(b) => Json::Bool(*b),
            Json::Int(n) => Json::Int(*n),
            Json::Real(s) => Json::Real(s.clone()),
            Json::Text(s) => Json::Text(s.clone()),
            Json::List(items) => {
                let mut out: Vec<Json> = Vec::new();
                let mut i: usize = 0;
                while i < items.len()
                    invariant
                        *self == Json::List(*items),
                        i <= items@.len(),
                        out@.len() == i,
                        forall|k: int| 0 <= k < i ==> (#[trigger] out@[k])@ == items@[k]@,
                    decreases items@.len() - i,
                {
                    assert(decreases_to!(*self => self->List_0));
                    assert(decreases_to!(self->List_0 => self->List_0@));
                    assert(decreases_to!(self->List_0@ => self->List_0@[i as int]));
                    out.push(items[i].copy());
                    i = i + 1;
                }
                let r = Json::List(out);
                assert(r@->List_0 =~= self@->List_0);
                r
            },
            Json::Object(members) => {
                let mut out: Vec<(String, Json)> = Vec::new();
                let mut i: usize = 0;
                while i < members.len()
                    invariant
                        *self == Json::Object(*members),
                        i <= members@.len(),
                        out@.len() == i,
                        forall|k: int| 0 <= k < i ==> (#[trigger] out@[k]).0@ == members@[k].0@ && out@[k].1@ == members@[k].1@,
                    decreases members@.len() - i,
                {
                    assert(decreases_to!(*self => self->Object_0));
                    assert(decreases_to!(self->Object_0 => self->Object_0@));
                    assert(decreases_to!(self->Object_0@ => self->Object_0@[i as int]));
                    assert(decreases_to!(self->Object_0@[i as int] => self->Object_0@[i as int].1));
                    out.push((members[i].0.clone(), members[i].1.copy()));
                    i = i + 1;
                }
                let r = Json::Object(out);
                assert(r@->Object_0 =~= self@->Object_0);
                r
            },
        }
    }
}

impl Json {
    /// The object with the member set: replaced if it is there, else added.
    pub fn set(self, key: &str, value: Json) -> (r: Json)
        ensures
            r@ == self@.set(key@, value@),
    {
        match self {
            Json::Object(members) => {
                let ghost m = self@->Object_0;
                let mut members = members;
                let mut i: usize = 0;
                while i < members.len()
                    invariant
                        m =~= members_view(members@),
                        i <= members@.len(),
                        key_at(m, key@, 0) == key_at(m, key@, i as int),
                    ensures
                        m =~= members_view(members@),
                        i <= members@.len(),
                        key_at(m, key@, 0) == if i < m.len() { Some(i as int) } else { None },
                    decreases members@.len() - i,
                {
                    assert(m[i as int] == (members@[i as int].0@, members@[i as int].1@));
                    if same_text(members[i].0.as_str(), key) {
                        break;
                    }
                    i = i + 1;
                }
                if i < members.len() {
                    members[i] = (key.to_owned(), value);
                    let r = Json::Object(members);
                    assert(r@->Object_0 =~= m.update(i as int, (key@, value@)));
                    r
                } else {
                    members.push((key.to_owned(), value));
                    let r = Json::Object(members);
                    assert(r@->Object_0 =~= m.push((key@, value@)));
                    r
                }
            },
            other => other,
        }
    }

    /// The members of the second object set in a copy of the first.
    pub fn merged(&self, other: &Json) -> (r: Json)
        ensures
            r@ == self@.merged(other@),
    {
        let mut out = self.copy();
        if let Json::Object(_) = self {
            if let Json::Object(members) = other {
                let ghost m = other@->Object_0;
                let mut i: usize = 0;
                while i < members.len()
                    invariant
                        m =~= members_view(members@),
                        i <= members@.len(),
                        out@ == self@.set_all(m, i as nat),
                    decreases members@.len() - i,
                {
                    assert(m[i as int] == (members@[i as int].0@, members@[i as int].1@));
                    out = out.set(members[i].0.as_str(), members[i].1.copy());
                    i = i + 1;
                }
            }
        }
        out
    }
}

/// The text, or another where there is none.
pub open spec fn or_text(t: Option<Seq<char>>, default: Seq<char>) -> Seq<char> {
    match t {
        Some(s) => s,
        None => default,
    }
}

pub fn owned_or(t: Option<&str>, default: &str) -> (r: String)
    ensures
        r@ == match t {
            Some(s) => s@,
            None => default@,
        },
{
    match t {
        Some(s) => s.to_owned(),
        None => default.to_owned(),
    }
}

/// A copy of the value, or null where there is none.
pub fn copied_or_null(v: Option<&Json>) -> (r: Json)
    ensures
        r@ == match v {
            Some(j) => j@,
            None => JsonView::Null,
        },
{
    match v {
        Some(j) => j.copy(),
        None => Json::Null,
    }
}

/// A list without items.
pub fn no_items() -> (r: Vec<Json>)
    ensures
        list_view(r@) == Seq::<JsonView>::empty(),
{
    let r: Vec<Json> = Vec::new();
    assert(list_view(r@) =~= Seq::<JsonView>::empty());
    r
}

/// Put an item behind the others.
pub fn append_item(items: &mut Vec<Json>, item: Json)
    ensures
        list_view(final(items)@) == list_view(old(items)@).push(item@),
{
    items.push(item);
    assert(list_view(items@) =~= list_view(old(items)@).push(item@));
}

/// A list of one item.
pub fn one_item(item: Json) -> (r: Vec<Json>)
    ensures
        list_view(r@) == seq![item@],
{
    let mut r = no_items();
    append_item(&mut r, item);
    r
}

/// A list of two items.
pub fn two_items(a: Json, b: Json) -> (r: Vec<Json>)
    ensures
        list_view(r@) == seq![a@, b@],
{
    let mut r = one_item(a);
    append_item(&mut r, b);
    r
}

impl Json {
    /// Whether two values have the same contents.
    pub fn same(&self, other: &Json) -> (r: bool)
        ensures
            r == (self@ == other@),
        decreases self,
    {
        match (self, other) {
            (Json::Null, Json::Null) => true,
            (Json::Bool(a), Json::Bool(b)) => *a == *b,
            (Json::Int(a), Json::Int(b)) => *a == *b,
            (Json::Real(a), Json::Real(b)) => *a == *b,
            (Json::Text(a), Json::Text(b)) => *a == *b,
            (Json::List(a), Json::List(b)) => {
                if a.len() != b.len() {
                    assert(self@->List_0.len() != other@->List_0.len());
                    return false;
                }
                let mut i: usize = 0;
                while i < a.len()
                    invariant
                        *self == Json::List(*a),
                        *other == Json::List(*b),
                        i <= a@.len() == b@.len(),
                        forall|k: int| 0 <= k < i ==> (#[trigger] a@[k])@ == b@[k]@,
                    decreases a@.len() - i,
                {
                    assert(decreases_to!(*self => self->List_0));
                    assert(decreases_to!(self->List_0 => self->List_0@));
                    assert(decreases_to!(self->List_0@ => self->List_0@[i as int]));
                    if !a[i].same(&b[i]) {
                        assert(self@->List_0[i as int] != other@->List_0[i as int]);
                        return false;
                    }
                    i = i + 1;
                }
                assert(self@->List_0 =~= other@->List_0);
                true
            },
            (Json::Object(a), Json::Object(b)) => {
                if a.len() != b.len() {
                    assert(self@->Object_0.len() != other@->Object_0.len());
                    return false;
                }
                let mut i: usize = 0;
                while i < a.len()
                    invariant
                        *self == Json::Object(*a),
                        *other == Json::Object(*b),
                        i <= a@.len() == b@.len(),
                        forall|k: int| 0 <= k < i ==> (#[trigger] a@[k]).0@ == b@[k].0@ && a@[k].1@ == b@[k].1@,
                    decreases a@.len() - i,
                {
                    assert(decreases_to!(*self => self->Object_0));
                    assert(decreases_to!(self->Object_0 => self->Object_0@));
                    assert(decreases_to!(self->Object_0@ => self->Object_0@[i as int]));
                    assert(decreases_to!(self->Object_0@[i as int] => self->Object_0@[i as int].1));
                    if a[i].0 != b[i].0 || !a[i].1.same(&b[i].1) {
                        assert(self@->Object_0[i as int] != other@->Object_0[i as int]);
                        return false;
                    }
                    i = i + 1;
                }
                assert(self@->Object_0 =~= other@->Object_0);
                true
            },
            _ => false,
        }
    }
}

} // verus!
