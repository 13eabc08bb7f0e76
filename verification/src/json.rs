//! A plain JSON value model for the bridge's tool-call data.
//!
//! Tool arguments, RPC request arguments and the tool catalog are JSON
//! shaped; this enum holds them as plain verified data. Numbers are kept
//! as their literal text, so no precision is lost and no floating point
//! enters the library. The host converts to and from its JSON library at
//! the process edge. [`JsonView`] is the mathematical shape of a value,
//! and every contract here speaks of it.

use vstd::prelude::*;
use vstd::string::StringExecFns;
use crate::text;

verus! {

broadcast use vstd::seq::group_seq_axioms, vstd::std_specs::vec::group_vec_axioms;

/// One JSON value. Object member order is preserved; repeated keys are
/// kept as written, and lookups find the first.
#[derive(Debug)]
pub enum JsonValue {
    Null,
    Bool(bool),
    /// A number as its literal text.
    Num(String),
    Str(String),
    Arr(Vec<JsonValue>),
    Obj(Vec<(String, JsonValue)>),
}

/// The mathematical shape of a JSON value.
#[verifier::ext_equal]
pub enum JsonView {
    Null,
    Bool(bool),
    Num(Seq<char>),
    Str(Seq<char>),
    Arr(Seq<JsonView>),
    Obj(Seq<(Seq<char>, JsonView)>),
}

/// The views of a list of values.
pub open spec fn seq_views(s: Seq<JsonValue>) -> Seq<JsonView>
    decreases s,
{
    if s.len() == 0 {
        Seq::<JsonView>::empty()
    } else {
        seq_views(s.drop_last()).push(s.last().view())
    }
}

/// The views of a list of object members.
pub open spec fn pair_views(s: Seq<(String, JsonValue)>) -> Seq<(Seq<char>, JsonView)>
    decreases s,
{
    if s.len() == 0 {
        Seq::<(Seq<char>, JsonView)>::empty()
    } else {
        pair_views(s.drop_last()).push((s.last().0@, s.last().1.view()))
    }
}

impl View for JsonValue {
    type V = JsonView;

    open spec fn view(&self) -> JsonView
        decreases self,
    {
        match self {
            JsonValue::Null => JsonView::Null,
            JsonValue::Bool(b) => JsonView::Bool(*b),
            JsonValue::Num(s) => JsonView::Num(s@),
            JsonValue::Str(s) => JsonView::Str(s@),
            JsonValue::Arr(items) => JsonView::Arr(seq_views(items@)),
            JsonValue::Obj(pairs) => JsonView::Obj(pair_views(pairs@)),
        }
    }
}

/// The view list is the list of views, element by element.
pub proof fn lemma_seq_views(s: Seq<JsonValue>)
    ensures
        seq_views(s).len() == s.len(),
        forall|i: int| 0 <= i < s.len() ==> #[trigger] seq_views(s)[i] == s[i]@,
    decreases s.len(),
{
    if s.len() > 0 {
        lemma_seq_views(s.drop_last());
        assert(seq_views(s) == seq_views(s.drop_last()).push(s.last().view()));
        assert forall|i: int| 0 <= i < s.len() implies #[trigger] seq_views(s)[i] == s[i]@ by {
            if i < s.len() - 1 {
                assert(seq_views(s)[i] == seq_views(s.drop_last())[i]);
                assert(s.drop_last()[i] == s[i]);
            } else {
                assert(seq_views(s)[i] == s.last()@);
            }
        }
    }
}

/// The member-view list is the list of member views, element by element.
pub proof fn lemma_pair_views(s: Seq<(String, JsonValue)>)
    ensures
        pair_views(s).len() == s.len(),
        forall|i: int| 0 <= i < s.len() ==> #[trigger] pair_views(s)[i] == (s[i].0@, s[i].1@),
    decreases s.len(),
{
    if s.len() > 0 {
        lemma_pair_views(s.drop_last());
        assert(pair_views(s) == pair_views(s.drop_last()).push((s.last().0@, s.last().1.view())));
        assert forall|i: int| 0 <= i < s.len() implies #[trigger] pair_views(s)[i] == (
            s[i].0@,
            s[i].1@,
        ) by {
            if i < s.len() - 1 {
                assert(pair_views(s)[i] == pair_views(s.drop_last())[i]);
                assert(s.drop_last()[i] == s[i]);
            } else {
                assert(pair_views(s)[i] == (s.last().0@, s.last().1@));
            }
        }
    }
}

/// Pins the view of a member list to a given member-view list.
pub proof fn lemma_obj_view_is(pairs: Seq<(String, JsonValue)>, kvs: Seq<(Seq<char>, JsonView)>)
    requires
        pairs.len() == kvs.len(),
        forall|i: int| 0 <= i < pairs.len() ==> #[trigger] kvs[i] == (pairs[i].0@, pairs[i].1@),
    ensures
        pair_views(pairs) == kvs,
{
    lemma_pair_views(pairs);
    assert(pair_views(pairs) =~= kvs);
}

/// Pins the view of a value list to a given view list.
pub proof fn lemma_arr_view_is(items: Seq<JsonValue>, vs: Seq<JsonView>)
    requires
        items.len() == vs.len(),
        forall|i: int| 0 <= i < items.len() ==> #[trigger] vs[i] == items[i]@,
    ensures
        seq_views(items) == vs,
{
    lemma_seq_views(items);
    assert(seq_views(items) =~= vs);
}

/// The first value under `key` among `pairs`, if any.
pub open spec fn spec_pairs_get(pairs: Seq<(Seq<char>, JsonView)>, key: Seq<char>) -> Option<
    JsonView,
>
    decreases pairs.len(),
{
    if pairs.len() == 0 {
        None
    } else if pairs[0].0 == key {
        Some(pairs[0].1)
    } else {
        spec_pairs_get(pairs.drop_first(), key)
    }
}

/// The first value under `key` when the value is an object, else nothing.
pub open spec fn spec_obj_get(v: JsonView, key: Seq<char>) -> Option<JsonView> {
    match v {
        JsonView::Obj(pairs) => spec_pairs_get(pairs, key),
        _ => None,
    }
}

impl JsonValue {
    /// A JSON string value.
    pub fn of_str(s: &str) -> (r: JsonValue)
        ensures
            r@ == JsonView::Str(s@),
    {
        JsonValue::Str(String::from_str(s))
    }

    /// A JSON number value holding a decimal `u64`.
    pub fn of_u64(n: u64) -> (r: JsonValue)
        ensures
            r@ == JsonView::Num(text::spec_dec_chars(n as int)),
    {
        JsonValue::Num(text::u64_to_dec_string(n))
    }

    /// Whether this value is `null`.
    pub fn is_null(&self) -> (r: bool)
        ensures
            r == (self@ is Null),
    {
        match self {
            JsonValue::Null => true,
            _ => false,
        }
    }

    /// The first value under `key`, when this value is an object holding
    /// the key.
    pub fn get<'a>(&'a self, key: &str) -> (r: Option<&'a JsonValue>)
        ensures
            (r is Some) == (spec_obj_get(self@, key@) is Some),
            r matches Some(v) ==> spec_obj_get(self@, key@) == Some(v@),
    {
        match self {
            JsonValue::Obj(pairs) => {
                let ghost kvs = self@->Obj_0;
                let n = pairs.len();
                let mut i: usize = 0;
                proof {
                    lemma_pair_views(pairs@);
                    assert(kvs.skip(0) =~= kvs);
                }
                while i < n
                    invariant
                        0 <= i <= n == pairs@.len(),
                        kvs == self@->Obj_0,
                        self@ is Obj,
                        kvs.len() == n,
                        forall|j: int| 0 <= j < n ==> #[trigger] kvs[j] == (
                            pairs@[j].0@,
                            pairs@[j].1@,
                        ),
                        spec_pairs_get(kvs, key@) == spec_pairs_get(kvs.skip(i as int), key@),
                    decreases n - i,
                {
                    proof {
                        let rest = kvs.skip(i as int);
                        assert(rest[0] == kvs[i as int]);
                        assert(rest.drop_first() =~= kvs.skip(i as int + 1));
                    }
                    if text::str_eq(pairs[i].0.as_str(), key) {
                        proof {
                            assert(spec_pairs_get(kvs.skip(i as int), key@) == Some(
                                pairs@[i as int].1@,
                            ));
                        }
                        return Some(&pairs[i].1);
                    }
                    i += 1;
                }
                proof {
                    assert(kvs.skip(n as int) =~= Seq::<(Seq<char>, JsonView)>::empty());
                }
                None
            },
            _ => None,
        }
    }

    /// An equal value, built afresh.
    pub fn deep_clone(&self) -> (r: JsonValue)
        ensures
            r@ == self@,
        decreases self,
    {
        match self {
            JsonValue::Null => JsonValue::Null,
            JsonValue::Bool(b) => JsonValue::Bool(*b),
            JsonValue::Num(s) => JsonValue::Num(s.clone()),
            JsonValue::Str(s) => JsonValue::Str(s.clone()),
            JsonValue::Arr(items) => {
                let n = items.len();
                let mut out: Vec<JsonValue> = Vec::new();
                let mut i: usize = 0;
                while i < n
                    invariant
                        0 <= i <= n == items@.len(),
                        out@.len() == i,
                        *self == JsonValue::Arr(*items),
                        forall|j: int| 0 <= j < i ==> #[trigger] out@[j]@ == items@[j]@,
                    decreases n - i,
                {
                    proof {
                        assert(*self == JsonValue::Arr(*items));
                        assert(decreases_to!(*self => self->Arr_0));
                        assert(self->Arr_0 == *items);
                        assert(decreases_to!(*items => items@));
                        assert(decreases_to!(items@ => items@[i as int]));
                    }
                    out.push(items[i].deep_clone());
                    i += 1;
                }
                let r = JsonValue::Arr(out);
                proof {
                    lemma_seq_views(out@);
                    lemma_seq_views(items@);
                    assert(r@->Arr_0 =~= self@->Arr_0);
                    assert(r@ =~= self@);
                }
                r
            },
            JsonValue::Obj(pairs) => {
                let n = pairs.len();
                let mut out: Vec<(String, JsonValue)> = Vec::new();
                let mut i: usize = 0;
                while i < n
                    invariant
                        0 <= i <= n == pairs@.len(),
                        out@.len() == i,
                        *self == JsonValue::Obj(*pairs),
                        forall|j: int|
                            0 <= j < i ==> #[trigger] out@[j].0@ == pairs@[j].0@ && out@[j].1@
                                == pairs@[j].1@,
                    decreases n - i,
                {
                    proof {
                        assert(*self == JsonValue::Obj(*pairs));
                        assert(decreases_to!(*self => self->Obj_0));
                        assert(self->Obj_0 == *pairs);
                        assert(decreases_to!(*pairs => pairs@));
                        assert(decreases_to!(pairs@ => pairs@[i as int]));
                        assert(decreases_to!(pairs@[i as int] => pairs@[i as int].1));
                    }
                    out.push((pairs[i].0.clone(), pairs[i].1.deep_clone()));
                    i += 1;
                }
                let r = JsonValue::Obj(out);
                proof {
                    lemma_pair_views(out@);
                    lemma_pair_views(pairs@);
                    assert(r@->Obj_0 =~= self@->Obj_0);
                    assert(r@ =~= self@);
                }
                r
            },
        }
    }

    /// The text of this value when it is a string.
    pub fn as_str<'a>(&'a self) -> (r: Option<&'a String>)
        ensures
            (r is Some) == (self@ is Str),
            r matches Some(s) ==> self@ == JsonView::Str(s@),
    {
        match self {
            JsonValue::Str(s) => Some(s),
            _ => None,
        }
    }
}

} // verus!
