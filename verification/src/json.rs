//! A small JSON reader for the dependency-update report.
//!
//! The upgrade command emits whitespace-separated lines; the report is the
//! first such token that is a JSON object tagged as a dependency-tree report.
//! Tokens carry no whitespace of their own, so the grammar here reads a token
//! as JSON without any whitespace skipping; string contents are kept as the
//! raw bytes between the quotes, with a backslash escaping the byte after it.

use vstd::prelude::*;
use vstd::slice::slice_to_vec;

verus! {

broadcast use vstd::std_specs::vec::group_vec_axioms, vstd::seq::group_seq_axioms;

/// A parsed JSON value, as executable data.
#[verifier::ext_equal]
pub enum JsonValue {
    Null,
    Bool(bool),
    Num(Vec<u8>),
    Str(Vec<u8>),
    Arr(Vec<JsonValue>),
    Obj(Vec<(Vec<u8>, JsonValue)>),
}

/// A parsed JSON value, as mathematical data.
#[verifier::ext_equal]
pub enum JsonNode {
    Null,
    Bool(bool),
    Num(Seq<u8>),
    Str(Seq<u8>),
    Arr(Seq<JsonNode>),
    Obj(Seq<(Seq<u8>, JsonNode)>),
}

/// The mathematical value of an executable value.
pub open spec fn node_of(v: JsonValue) -> JsonNode
    decreases v, 1int,
{
    match v {
        JsonValue::Null => JsonNode::Null,
        JsonValue::Bool(b) => JsonNode::Bool(b),
        JsonValue::Num(d) => JsonNode::Num(d@),
        JsonValue::Str(s) => JsonNode::Str(s@),
        JsonValue::Arr(items) => JsonNode::Arr(items_node(items@)),
        JsonValue::Obj(fields) => JsonNode::Obj(fields_node(fields@)),
    }
}

/// The mathematical contents of a sequence of executable array items.
pub open spec fn items_node(items: Seq<JsonValue>) -> Seq<JsonNode>
    decreases items, 0int,
{
    if items.len() == 0 {
        Seq::empty()
    } else {
        seq![node_of(items[0])] + items_node(items.subrange(1, items.len() as int))
    }
}

/// The mathematical contents of a sequence of executable object fields.
pub open spec fn fields_node(fields: Seq<(Vec<u8>, JsonValue)>) -> Seq<(Seq<u8>, JsonNode)>
    decreases fields, 0int,
{
    if fields.len() == 0 {
        Seq::empty()
    } else {
        seq![(fields[0].0@, node_of(fields[0].1))] + fields_node(
            fields.subrange(1, fields.len() as int),
        )
    }
}

/// `items_node` maps the sequence elementwise.
pub proof fn lemma_items_node(items: Seq<JsonValue>)
    ensures
        items_node(items).len() == items.len(),
        forall|k: int|
            0 <= k < items.len() ==> items_node(items)[k] == node_of(#[trigger] items[k]),
    decreases items.len(),
{
    if items.len() > 0 {
        let sub = items.subrange(1, items.len() as int);
        lemma_items_node(sub);
        assert forall|k: int| 0 <= k < items.len() implies items_node(items)[k] == node_of(
            #[trigger] items[k],
        ) by {
            if k > 0 {
                assert(sub[k - 1] == items[k]);
                assert(items_node(sub)[k - 1] == node_of(sub[k - 1]));
            }
        }
    }
}

/// `fields_node` maps the sequence elementwise.
pub proof fn lemma_fields_node(fields: Seq<(Vec<u8>, JsonValue)>)
    ensures
        fields_node(fields).len() == fields.len(),
        forall|k: int|
            0 <= k < fields.len() ==> fields_node(fields)[k] == ((#[trigger] fields[k]).0@,
            node_of(fields[k].1)),
    decreases fields.len(),
{
    if fields.len() > 0 {
        let sub = fields.subrange(1, fields.len() as int);
        lemma_fields_node(sub);
        assert forall|k: int| 0 <= k < fields.len() implies fields_node(fields)[k] == ((
        #[trigger] fields[k]).0@, node_of(fields[k].1)) by {
            if k > 0 {
                assert(sub[k - 1] == fields[k]);
                assert(fields_node(sub)[k - 1] == (sub[k - 1].0@, node_of(sub[k - 1].1)));
            }
        }
    }
}

/// The sequences behind a list of byte strings.
pub open spec fn bytes_seqs(v: Seq<Vec<u8>>) -> Seq<Seq<u8>> {
    Seq::new(v.len(), |k: int| v[k]@)
}

/// Equality of two byte strings, stated over their sequences.
pub fn bytes_eq(a: &[u8], b: &[u8]) -> (r: bool)
    ensures
        r == (a@ == b@),
{
    if a.len() != b.len() {
        return false;
    }
    let mut i: usize = 0;
    while i < a.len()
        invariant
            i <= a@.len(),
            a@.len() == b@.len(),
            forall|j: int| 0 <= j < i ==> a@[j] == b@[j],
        decreases a@.len() - i,
    {
        if a[i] != b[i] {
            return false;
        }
        i = i + 1;
    }
    proof {
        assert(a@ =~= b@);
    }
    true
}

/// Position just past a string body that starts at `i` (the byte after the
/// opening quote): the byte after the closing quote, if the string is closed.
pub open spec fn spec_str_end(s: Seq<u8>, i: int) -> Option<int>
    decreases s.len() - i,
{
    if i < 0 || i >= s.len() {
        None
    } else if s[i] == 34 {
        Some(i + 1)
    } else if s[i] == 92 {
        if i + 1 < s.len() {
            spec_str_end(s, i + 2)
        } else {
            None
        }
    } else {
        spec_str_end(s, i + 1)
    }
}

/// Whether a byte may continue a JSON number.
pub open spec fn is_num_byte(c: u8) -> bool {
    (48 <= c && c <= 57) || c == 43 || c == 45 || c == 46 || c == 69 || c == 101
}

/// End of the maximal run of number bytes from `i`.
pub open spec fn spec_num_end(s: Seq<u8>, i: int) -> int
    decreases s.len() - i,
{
    if 0 <= i < s.len() && is_num_byte(s[i]) {
        spec_num_end(s, i + 1)
    } else {
        i
    }
}

/// Parses one JSON value at `i`.  `fuel` bounds the recursion; one unit is
/// spent per value and per separating comma, so any token's own length is
/// enough fuel for it.
pub open spec fn spec_value(s: Seq<u8>, i: int, fuel: nat) -> Option<(JsonNode, int)>
    decreases fuel, 2int,
{
    if fuel == 0 || i < 0 || i >= s.len() {
        None
    } else {
        let c = s[i];
        if c == 34 {
            match spec_str_end(s, i + 1) {
                Some(j) => Some((JsonNode::Str(s.subrange(i + 1, j - 1)), j)),
                None => None,
            }
        } else if c == 123 {
            spec_obj(s, i + 1, fuel)
        } else if c == 91 {
            spec_arr(s, i + 1, fuel)
        } else if c == 116 {
            if i + 4 <= s.len() && s[i + 1] == 114 && s[i + 2] == 117 && s[i + 3] == 101 {
                Some((JsonNode::Bool(true), i + 4))
            } else {
                None
            }
        } else if c == 102 {
            if i + 5 <= s.len() && s[i + 1] == 97 && s[i + 2] == 108 && s[i + 3] == 115 && s[i + 4]
                == 101 {
                Some((JsonNode::Bool(false), i + 5))
            } else {
                None
            }
        } else if c == 110 {
            if i + 4 <= s.len() && s[i + 1] == 117 && s[i + 2] == 108 && s[i + 3] == 108 {
                Some((JsonNode::Null, i + 4))
            } else {
                None
            }
        } else if c == 45 || (48 <= c && c <= 57) {
            Some((JsonNode::Num(s.subrange(i, spec_num_end(s, i))), spec_num_end(s, i)))
        } else {
            None
        }
    }
}

/// Parses the remainder of an object whose opening brace sat at `i - 1`.
pub open spec fn spec_obj(s: Seq<u8>, i: int, fuel: nat) -> Option<(JsonNode, int)>
    decreases fuel, 1int,
{
    if 0 <= i < s.len() && s[i] == 125 {
        Some((JsonNode::Obj(Seq::empty()), i + 1))
    } else {
        match spec_members(s, i, fuel) {
            Some((fields, j)) => Some((JsonNode::Obj(fields), j)),
            None => None,
        }
    }
}

/// Parses one or more `"key":value` members from `i`, through the closing
/// brace.
pub open spec fn spec_members(s: Seq<u8>, i: int, fuel: nat) -> Option<
    (Seq<(Seq<u8>, JsonNode)>, int),
>
    decreases fuel, 0int,
{
    if fuel == 0 || !(0 <= i < s.len() && s[i] == 34) {
        None
    } else {
        match spec_str_end(s, i + 1) {
            Some(j) => {
                let key = s.subrange(i + 1, j - 1);
                if j < s.len() && s[j] == 58 {
                    match spec_value(s, j + 1, (fuel - 1) as nat) {
                        Some((v, k)) => {
                            if k < s.len() && s[k] == 44 {
                                match spec_members(s, k + 1, (fuel - 1) as nat) {
                                    Some((rest, m)) => Some((seq![(key, v)] + rest, m)),
                                    None => None,
                                }
                            } else if k < s.len() && s[k] == 125 {
                                Some((seq![(key, v)], k + 1))
                            } else {
                                None
                            }
                        },
                        None => None,
                    }
                } else {
                    None
                }
            },
            None => None,
        }
    }
}

/// Parses the remainder of an array whose opening bracket sat at `i - 1`.
pub open spec fn spec_arr(s: Seq<u8>, i: int, fuel: nat) -> Option<(JsonNode, int)>
    decreases fuel, 1int,
{
    if 0 <= i < s.len() && s[i] == 93 {
        Some((JsonNode::Arr(Seq::empty()), i + 1))
    } else {
        match spec_elems(s, i, fuel) {
            Some((items, j)) => Some((JsonNode::Arr(items), j)),
            None => None,
        }
    }
}

/// Parses one or more array elements from `i`, through the closing bracket.
pub open spec fn spec_elems(s: Seq<u8>, i: int, fuel: nat) -> Option<(Seq<JsonNode>, int)>
    decreases fuel, 0int,
{
    if fuel == 0 {
        None
    } else {
        match spec_value(s, i, (fuel - 1) as nat) {
            Some((v, k)) => {
                if k < s.len() && s[k] == 44 {
                    match spec_elems(s, k + 1, (fuel - 1) as nat) {
                        Some((rest, m)) => Some((seq![v] + rest, m)),
                        None => None,
                    }
                } else if k < s.len() && s[k] == 93 {
                    Some((seq![v], k + 1))
                } else {
                    None
                }
            },
            None => None,
        }
    }
}

/// The JSON value denoted by the whole of `s`, if any.
pub open spec fn spec_parse(s: Seq<u8>) -> Option<JsonNode> {
    match spec_value(s, 0, s.len()) {
        Some((v, j)) => if j == s.len() {
            Some(v)
        } else {
            None
        },
        None => None,
    }
}

/// The bytes that a value writes out; the one form the reader above accepts.
pub open spec fn ser(v: JsonNode) -> Seq<u8>
    decreases v, 1int,
{
    match v {
        JsonNode::Null => seq![110u8, 117u8, 108u8, 108u8],
        JsonNode::Bool(b) => if b {
            seq![116u8, 114u8, 117u8, 101u8]
        } else {
            seq![102u8, 97u8, 108u8, 115u8, 101u8]
        },
        JsonNode::Num(d) => d,
        JsonNode::Str(c) => seq![34u8] + c + seq![34u8],
        JsonNode::Arr(items) => seq![91u8] + ser_items(items),
        JsonNode::Obj(fields) => seq![123u8] + ser_fields(fields),
    }
}

/// The items of an array written out, through the closing bracket.
pub open spec fn ser_items(items: Seq<JsonNode>) -> Seq<u8>
    decreases items, 0int,
{
    if items.len() == 0 {
        seq![93u8]
    } else if items.len() == 1 {
        ser(items[0]) + seq![93u8]
    } else {
        ser(items[0]) + seq![44u8] + ser_items(items.subrange(1, items.len() as int))
    }
}

/// The fields of an object written out, through the closing brace.
pub open spec fn ser_fields(fields: Seq<(Seq<u8>, JsonNode)>) -> Seq<u8>
    decreases fields, 0int,
{
    if fields.len() == 0 {
        seq![125u8]
    } else {
        let pair = seq![34u8] + fields[0].0 + seq![34u8, 58u8] + ser(fields[0].1);
        if fields.len() == 1 {
            pair + seq![125u8]
        } else {
            pair + seq![44u8] + ser_fields(fields.subrange(1, fields.len() as int))
        }
    }
}

proof fn lemma_str_end_shape(s: Seq<u8>, i: int, j: int)
    requires
        spec_str_end(s, i) == Some(j),
    ensures
        i < j <= s.len(),
        s[j - 1] == 34,
    decreases s.len() - i,
{
    if 0 <= i < s.len() {
        if s[i] == 34 {
        } else if s[i] == 92 {
            if i + 1 < s.len() {
                lemma_str_end_shape(s, i + 2, j);
            }
        } else {
            lemma_str_end_shape(s, i + 1, j);
        }
    }
}

proof fn lemma_num_end_bounds(s: Seq<u8>, i: int)
    requires
        0 <= i <= s.len(),
    ensures
        i <= spec_num_end(s, i) <= s.len(),
    decreases s.len() - i,
{
    if i < s.len() && is_num_byte(s[i]) {
        lemma_num_end_bounds(s, i + 1);
    }
}

proof fn lemma_value_sound(s: Seq<u8>, i: int, fuel: nat)
    ensures
        spec_value(s, i, fuel) matches Some(p) ==> i < p.1 <= s.len() && ser(p.0) == s.subrange(
            i,
            p.1,
        ),
    decreases fuel, 2int,
{
    if fuel == 0 || i < 0 || i >= s.len() {
        return ;
    }
    let c = s[i];
    if c == 34 {
        if let Some(j) = spec_str_end(s, i + 1) {
            lemma_str_end_shape(s, i + 1, j);
            assert(ser(JsonNode::Str(s.subrange(i + 1, j - 1))) =~= s.subrange(i, j));
        }
    } else if c == 123 {
        lemma_obj_sound(s, i + 1, fuel);
        if let Some(p) = spec_obj(s, i + 1, fuel) {
            assert(ser(p.0) =~= s.subrange(i, p.1));
        }
    } else if c == 91 {
        lemma_arr_sound(s, i + 1, fuel);
        if let Some(p) = spec_arr(s, i + 1, fuel) {
            assert(ser(p.0) =~= s.subrange(i, p.1));
        }
    } else if c == 116 {
        if let Some(p) = spec_value(s, i, fuel) {
            assert(ser(p.0) =~= s.subrange(i, p.1));
        }
    } else if c == 102 {
        if let Some(p) = spec_value(s, i, fuel) {
            assert(ser(p.0) =~= s.subrange(i, p.1));
        }
    } else if c == 110 {
        if let Some(p) = spec_value(s, i, fuel) {
            assert(ser(p.0) =~= s.subrange(i, p.1));
        }
    } else if c == 45 || (48 <= c && c <= 57) {
        lemma_num_end_bounds(s, i + 1);
        assert(spec_num_end(s, i) == spec_num_end(s, i + 1));
    }
}

proof fn lemma_obj_sound(s: Seq<u8>, i: int, fuel: nat)
    ensures
        spec_obj(s, i, fuel) matches Some(p) ==> {
            &&& i < p.1 <= s.len()
            &&& p.0 matches JsonNode::Obj(fields) && ser_fields(fields) == s.subrange(i, p.1)
        },
    decreases fuel, 1int,
{
    if 0 <= i < s.len() && s[i] == 125 {
        assert(ser_fields(Seq::empty()) =~= s.subrange(i, i + 1));
    } else {
        lemma_members_sound(s, i, fuel);
    }
}

proof fn lemma_members_sound(s: Seq<u8>, i: int, fuel: nat)
    ensures
        spec_members(s, i, fuel) matches Some(p) ==> {
            &&& i < p.1 <= s.len()
            &&& p.0.len() >= 1
            &&& ser_fields(p.0) == s.subrange(i, p.1)
        },
    decreases fuel, 0int,
{
    if fuel == 0 || !(0 <= i < s.len() && s[i] == 34) {
        return ;
    }
    if let Some(j) = spec_str_end(s, i + 1) {
        lemma_str_end_shape(s, i + 1, j);
        let key = s.subrange(i + 1, j - 1);
        if j < s.len() && s[j] == 58 {
            lemma_value_sound(s, j + 1, (fuel - 1) as nat);
            if let Some((v, k)) = spec_value(s, j + 1, (fuel - 1) as nat) {
                let pair = seq![34u8] + key + seq![34u8, 58u8] + ser(v);
                assert(pair =~= s.subrange(i, k));
                if k < s.len() && s[k] == 44 {
                    lemma_members_sound(s, k + 1, (fuel - 1) as nat);
                    if let Some((rest, m)) = spec_members(s, k + 1, (fuel - 1) as nat) {
                        let fields = seq![(key, v)] + rest;
                        assert(fields.subrange(1, fields.len() as int) =~= rest);
                        assert(ser_fields(fields) =~= pair + seq![44u8] + ser_fields(rest));
                        assert(ser_fields(fields) =~= s.subrange(i, m));
                    }
                } else if k < s.len() && s[k] == 125 {
                    let fields = seq![(key, v)];
                    assert(ser_fields(fields) =~= pair + seq![125u8]);
                    assert(ser_fields(fields) =~= s.subrange(i, k + 1));
                }
            }
        }
    }
}

proof fn lemma_arr_sound(s: Seq<u8>, i: int, fuel: nat)
    ensures
        spec_arr(s, i, fuel) matches Some(p) ==> {
            &&& i < p.1 <= s.len()
            &&& p.0 matches JsonNode::Arr(items) && ser_items(items) == s.subrange(i, p.1)
        },
    decreases fuel, 1int,
{
    if 0 <= i < s.len() && s[i] == 93 {
        assert(ser_items(Seq::empty()) =~= s.subrange(i, i + 1));
    } else {
        lemma_elems_sound(s, i, fuel);
    }
}

proof fn lemma_elems_sound(s: Seq<u8>, i: int, fuel: nat)
    ensures
        spec_elems(s, i, fuel) matches Some(p) ==> {
            &&& i < p.1 <= s.len()
            &&& p.0.len() >= 1
            &&& ser_items(p.0) == s.subrange(i, p.1)
        },
    decreases fuel, 0int,
{
    if fuel == 0 {
        return ;
    }
    lemma_value_sound(s, i, (fuel - 1) as nat);
    if let Some((v, k)) = spec_value(s, i, (fuel - 1) as nat) {
        if k < s.len() && s[k] == 44 {
            lemma_elems_sound(s, k + 1, (fuel - 1) as nat);
            if let Some((rest, m)) = spec_elems(s, k + 1, (fuel - 1) as nat) {
                let items = seq![v] + rest;
                assert(items.subrange(1, items.len() as int) =~= rest);
                assert(ser_items(items) =~= ser(v) + seq![44u8] + ser_items(rest));
                assert(ser_items(items) =~= s.subrange(i, m));
            }
        } else if k < s.len() && s[k] == 93 {
            let items = seq![v];
            assert(ser_items(items) =~= ser(v) + seq![93u8]);
            assert(ser_items(items) =~= s.subrange(i, k + 1));
        }
    }
}

/// Soundness of the reader against the writer: a value parsed out of `s`,
/// written back out, is exactly `s`.
pub proof fn lemma_parse_sound(s: Seq<u8>)
    ensures
        spec_parse(s) matches Some(v) ==> ser(v) == s,
{
    lemma_value_sound(s, 0, s.len());
    if let Some((v, j)) = spec_value(s, 0, s.len()) {
        if j == s.len() {
            assert(s.subrange(0, s.len() as int) =~= s);
        }
    }
}

fn str_end(s: &[u8], i: usize) -> (r: Option<usize>)
    ensures
        match r {
            Some(j) => spec_str_end(s@, i as int) == Some(j as int) && i < j <= s@.len(),
            None => spec_str_end(s@, i as int) is None,
        },
    decreases s@.len() - i,
{
    if i >= s.len() {
        None
    } else if s[i] == 34 {
        Some(i + 1)
    } else if s[i] == 92 {
        if i + 1 < s.len() {
            str_end(s, i + 2)
        } else {
            None
        }
    } else {
        str_end(s, i + 1)
    }
}

fn num_end(s: &[u8], i: usize) -> (r: usize)
    requires
        i <= s@.len(),
    ensures
        r == spec_num_end(s@, i as int),
        i <= r <= s@.len(),
        (i < s@.len() && is_num_byte(s@[i as int])) ==> i < r,
    decreases s@.len() - i,
{
    if i < s.len() && is_num_byte_x(s[i]) {
        num_end(s, i + 1)
    } else {
        i
    }
}

fn is_num_byte_x(c: u8) -> (r: bool)
    ensures
        r == is_num_byte(c),
{
    (48 <= c && c <= 57) || c == 43 || c == 45 || c == 46 || c == 69 || c == 101
}

fn parse_value(s: &[u8], i: usize, fuel: usize) -> (r: Option<(JsonValue, usize)>)
    ensures
        match r {
            Some(p) => spec_value(s@, i as int, fuel as nat) == Some((node_of(p.0), p.1 as int))
                && i < p.1 <= s@.len(),
            None => spec_value(s@, i as int, fuel as nat) is None,
        },
    decreases fuel, 2int,
{
    if fuel == 0 || i >= s.len() {
        return None;
    }
    let c = s[i];
    if c == 34 {
        match str_end(s, i + 1) {
            Some(j) => Some((JsonValue::Str(slice_to_vec(&s[i + 1..j - 1])), j)),
            None => None,
        }
    } else if c == 123 {
        parse_obj(s, i + 1, fuel)
    } else if c == 91 {
        parse_arr(s, i + 1, fuel)
    } else if c == 116 {
        if s.len() - i >= 4 && s[i + 1] == 114 && s[i + 2] == 117 && s[i + 3] == 101 {
            Some((JsonValue::Bool(true), i + 4))
        } else {
            None
        }
    } else if c == 102 {
        if s.len() - i >= 5 && s[i + 1] == 97 && s[i + 2] == 108 && s[i + 3] == 115 && s[i + 4]
            == 101 {
            Some((JsonValue::Bool(false), i + 5))
        } else {
            None
        }
    } else if c == 110 {
        if s.len() - i >= 4 && s[i + 1] == 117 && s[i + 2] == 108 && s[i + 3] == 108 {
            Some((JsonValue::Null, i + 4))
        } else {
            None
        }
    } else if c == 45 || (48 <= c && c <= 57) {
        let j = num_end(s, i);
        Some((JsonValue::Num(slice_to_vec(&s[i..j])), j))
    } else {
        None
    }
}

fn parse_obj(s: &[u8], i: usize, fuel: usize) -> (r: Option<(JsonValue, usize)>)
    requires
        i <= s@.len(),
    ensures
        match r {
            Some(p) => spec_obj(s@, i as int, fuel as nat) == Some((node_of(p.0), p.1 as int)) && i
                < p.1 <= s@.len(),
            None => spec_obj(s@, i as int, fuel as nat) is None,
        },
    decreases fuel, 1int,
{
    if i < s.len() && s[i] == 125 {
        let nothing: Vec<(Vec<u8>, JsonValue)> = Vec::new();
        proof {
            assert(fields_node(nothing@) =~= Seq::<(Seq<u8>, JsonNode)>::empty());
        }
        let v = JsonValue::Obj(nothing);
        proof {
            assert(node_of(v) =~= JsonNode::Obj(Seq::empty()));
        }
        Some((v, i + 1))
    } else {
        match parse_members(s, i, fuel) {
            Some((fields, j)) => {
                let v = JsonValue::Obj(fields);
                Some((v, j))
            },
            None => None,
        }
    }
}

fn parse_members(s: &[u8], i: usize, fuel: usize) -> (r: Option<
    (Vec<(Vec<u8>, JsonValue)>, usize),
>)
    requires
        i <= s@.len(),
    ensures
        match r {
            Some(p) => spec_members(s@, i as int, fuel as nat) == Some(
                (fields_node(p.0@), p.1 as int),
            ) && i < p.1 <= s@.len(),
            None => spec_members(s@, i as int, fuel as nat) is None,
        },
    decreases fuel, 0int,
{
    if fuel == 0 || !(i < s.len() && s[i] == 34) {
        return None;
    }
    let j = match str_end(s, i + 1) {
        Some(j) => j,
        None => {
            return None;
        },
    };
    let key: Vec<u8> = slice_to_vec(&s[i + 1..j - 1]);
    if !(j < s.len() && s[j] == 58) {
        return None;
    }
    let (v, k) = match parse_value(s, j + 1, fuel - 1) {
        Some(p) => p,
        None => {
            return None;
        },
    };
    if k < s.len() && s[k] == 44 {
        match parse_members(s, k + 1, fuel - 1) {
            Some((mut rest, m)) => {
                let ghost rest0 = rest@;
                let mut out: Vec<(Vec<u8>, JsonValue)> = Vec::new();
                out.push((key, v));
                out.append(&mut rest);
                proof {
                    assert(out@.subrange(1, out@.len() as int) =~= rest0);
                    assert(fields_node(out@) =~= seq![(out@[0].0@, node_of(out@[0].1))]
                        + fields_node(rest0));
                }
                Some((out, m))
            },
            None => None,
        }
    } else if k < s.len() && s[k] == 125 {
        let mut fields: Vec<(Vec<u8>, JsonValue)> = Vec::new();
        fields.push((key, v));
        proof {
            assert(fields@.subrange(1, fields@.len() as int) =~= Seq::<(
                Vec<u8>,
                JsonValue,
            )>::empty());
            reveal_with_fuel(fields_node, 2);
            assert(fields_node(fields@) =~= seq![(fields@[0].0@, node_of(fields@[0].1))]);
        }
        Some((fields, k + 1))
    } else {
        None
    }
}

fn parse_arr(s: &[u8], i: usize, fuel: usize) -> (r: Option<(JsonValue, usize)>)
    requires
        i <= s@.len(),
    ensures
        match r {
            Some(p) => spec_arr(s@, i as int, fuel as nat) == Some((node_of(p.0), p.1 as int)) && i
                < p.1 <= s@.len(),
            None => spec_arr(s@, i as int, fuel as nat) is None,
        },
    decreases fuel, 1int,
{
    if i < s.len() && s[i] == 93 {
        let nothing: Vec<JsonValue> = Vec::new();
        proof {
            assert(items_node(nothing@) =~= Seq::<JsonNode>::empty());
        }
        let v = JsonValue::Arr(nothing);
        proof {
            assert(node_of(v) =~= JsonNode::Arr(Seq::empty()));
        }
        Some((v, i + 1))
    } else {
        match parse_elems(s, i, fuel) {
            Some((items, j)) => Some((JsonValue::Arr(items), j)),
            None => None,
        }
    }
}

fn parse_elems(s: &[u8], i: usize, fuel: usize) -> (r: Option<(Vec<JsonValue>, usize)>)
    requires
        i <= s@.len(),
    ensures
        match r {
            Some(p) => spec_elems(s@, i as int, fuel as nat) == Some(
                (items_node(p.0@), p.1 as int),
            ) && i < p.1 <= s@.len(),
            None => spec_elems(s@, i as int, fuel as nat) is None,
        },
    decreases fuel, 0int,
{
    if fuel == 0 {
        return None;
    }
    let (v, k) = match parse_value(s, i, fuel - 1) {
        Some(p) => p,
        None => {
            return None;
        },
    };
    if k < s.len() && s[k] == 44 {
        match parse_elems(s, k + 1, fuel - 1) {
            Some((mut rest, m)) => {
                let ghost rest0 = rest@;
                let mut out: Vec<JsonValue> = Vec::new();
                out.push(v);
                out.append(&mut rest);
                proof {
                    assert(out@.subrange(1, out@.len() as int) =~= rest0);
                    assert(items_node(out@) =~= seq![node_of(out@[0])] + items_node(rest0));
                }
                Some((out, m))
            },
            None => None,
        }
    } else if k < s.len() && s[k] == 93 {
        let mut items: Vec<JsonValue> = Vec::new();
        items.push(v);
        proof {
            assert(items@.subrange(1, items@.len() as int) =~= Seq::<JsonValue>::empty());
            reveal_with_fuel(items_node, 2);
            assert(items_node(items@) =~= seq![node_of(items@[0])]);
        }
        Some((items, k + 1))
    } else {
        None
    }
}

/// Parses the whole of `s` as one JSON value.
pub fn parse_json(s: &[u8]) -> (r: Option<JsonValue>)
    ensures
        match r {
            Some(v) => spec_parse(s@) == Some(node_of(v)),
            None => spec_parse(s@) is None,
        },
{
    match parse_value(s, 0, s.len()) {
        Some((v, j)) => if j == s.len() {
            Some(v)
        } else {
            None
        },
        None => None,
    }
}

} // verus!
