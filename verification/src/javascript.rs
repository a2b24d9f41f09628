//! The JavaScript dependency-update strategy: reading the upgrade command's
//! machine-readable output.
//!
//! The upgrade command is run outside the library; this module takes the
//! bytes it printed, finds the one whitespace-separated token that is a JSON
//! object tagged as a dependency-tree report, and returns the names of the
//! packages listed under its `data.trees`.

use crate::json::{
    bytes_eq, bytes_seqs, fields_node, lemma_fields_node, lemma_items_node, node_of, parse_json,
    spec_parse, JsonNode, JsonValue,
};
use vstd::prelude::*;
use vstd::slice::slice_to_vec;

verus! {

broadcast use vstd::std_specs::vec::group_vec_axioms, vstd::seq::group_seq_axioms;

/// Settings for the JavaScript strategy; none are recognized yet.
pub struct JSConfig {}

/// How a dependency update can fail.
#[derive(Clone, Copy, Debug, PartialEq, Eq, Structural)]
pub enum UpdateError {
    UnsupportedLanguage,
    UpdateCommandFailed,
    OutputParseFailed,
}

impl UpdateError {
    /// A human-readable description, naming the output fragment that was
    /// expected when parsing failed.
    pub fn describe(&self) -> (r: String)
        ensures
            self is UnsupportedLanguage ==> r@
                == "dependency updates are not yet implemented for this language"@,
            self is UpdateCommandFailed ==> r@ == "the upgrade command failed"@,
            self is OutputParseFailed ==> r@
                == "could not find dependency JSON object \"newAllDependencies\""@,
    {
        match self {
            UpdateError::UnsupportedLanguage => {
                "dependency updates are not yet implemented for this language".to_owned()
            },
            UpdateError::UpdateCommandFailed => "the upgrade command failed".to_owned(),
            UpdateError::OutputParseFailed => {
                "could not find dependency JSON object \"newAllDependencies\"".to_owned()
            },
        }
    }
}

/// The bytes of the object key `type`.
pub open spec fn key_type() -> Seq<u8> {
    seq![116u8, 121u8, 112u8, 101u8]
}

/// The bytes of the tag value `tree`.
pub open spec fn val_tree() -> Seq<u8> {
    seq![116u8, 114u8, 101u8, 101u8]
}

/// The bytes of the object key `data`.
pub open spec fn key_data() -> Seq<u8> {
    seq![100u8, 97u8, 116u8, 97u8]
}

/// The bytes of the tag value `newAllDependencies`.
pub open spec fn val_new_all() -> Seq<u8> {
    seq![
        110u8,
        101u8,
        119u8,
        65u8,
        108u8,
        108u8,
        68u8,
        101u8,
        112u8,
        101u8,
        110u8,
        100u8,
        101u8,
        110u8,
        99u8,
        105u8,
        101u8,
        115u8,
    ]
}

/// The bytes of the object key `trees`.
pub open spec fn key_trees() -> Seq<u8> {
    seq![116u8, 114u8, 101u8, 101u8, 115u8]
}

/// The bytes of the object key `name`.
pub open spec fn key_name() -> Seq<u8> {
    seq![110u8, 97u8, 109u8, 101u8]
}

fn key_type_x() -> (r: Vec<u8>)
    ensures
        r@ == key_type(),
{
    let mut v: Vec<u8> = Vec::new();
    v.push(116);
    v.push(121);
    v.push(112);
    v.push(101);
    proof {
        assert(v@ =~= key_type());
    }
    v
}

fn val_tree_x() -> (r: Vec<u8>)
    ensures
        r@ == val_tree(),
{
    let mut v: Vec<u8> = Vec::new();
    v.push(116);
    v.push(114);
    v.push(101);
    v.push(101);
    proof {
        assert(v@ =~= val_tree());
    }
    v
}

fn key_data_x() -> (r: Vec<u8>)
    ensures
        r@ == key_data(),
{
    let mut v: Vec<u8> = Vec::new();
    v.push(100);
    v.push(97);
    v.push(116);
    v.push(97);
    proof {
        assert(v@ =~= key_data());
    }
    v
}

fn val_new_all_x() -> (r: Vec<u8>)
    ensures
        r@ == val_new_all(),
{
    let mut v: Vec<u8> = Vec::new();
    v.push(110);
    v.push(101);
    v.push(119);
    v.push(65);
    v.push(108);
    v.push(108);
    v.push(68);
    v.push(101);
    v.push(112);
    v.push(101);
    v.push(110);
    v.push(100);
    v.push(101);
    v.push(110);
    v.push(99);
    v.push(105);
    v.push(101);
    v.push(115);
    proof {
        assert(v@ =~= val_new_all());
    }
    v
}

fn key_trees_x() -> (r: Vec<u8>)
    ensures
        r@ == key_trees(),
{
    let mut v: Vec<u8> = Vec::new();
    v.push(116);
    v.push(114);
    v.push(101);
    v.push(101);
    v.push(115);
    proof {
        assert(v@ =~= key_trees());
    }
    v
}

fn key_name_x() -> (r: Vec<u8>)
    ensures
        r@ == key_name(),
{
    let mut v: Vec<u8> = Vec::new();
    v.push(110);
    v.push(97);
    v.push(109);
    v.push(101);
    proof {
        assert(v@ =~= key_name());
    }
    v
}

/// The value of the first field named `key`, from position `i` on.
pub open spec fn lookup_from(fields: Seq<(Seq<u8>, JsonNode)>, key: Seq<u8>, i: int) -> Option<
    JsonNode,
>
    decreases fields.len() - i,
{
    if i < 0 || i >= fields.len() {
        None
    } else if fields[i].0 == key {
        Some(fields[i].1)
    } else {
        lookup_from(fields, key, i + 1)
    }
}

fn obj_lookup_from<'a>(fields: &'a Vec<(Vec<u8>, JsonValue)>, key: &[u8], i: usize) -> (r: Option<
    &'a JsonValue,
>)
    ensures
        match r {
            Some(v) => lookup_from(fields_node(fields@), key@, i as int) == Some(node_of(*v)),
            None => lookup_from(fields_node(fields@), key@, i as int) is None,
        },
    decreases fields@.len() - i,
{
    proof {
        lemma_fields_node(fields@);
    }
    if i >= fields.len() {
        None
    } else {
        let entry = &fields[i];
        if bytes_eq(entry.0.as_slice(), key) {
            Some(&entry.1)
        } else {
            obj_lookup_from(fields, key, i + 1)
        }
    }
}

/// The package name recorded in one entry of the report's tree list.
pub open spec fn tree_item_name(v: JsonNode) -> Option<Seq<u8>> {
    match v {
        JsonNode::Obj(fields) => match lookup_from(fields, key_name(), 0) {
            Some(JsonNode::Str(nm)) => Some(nm),
            _ => None,
        },
        _ => None,
    }
}

/// The package names recorded in the report's tree list, in order, from
/// position `i` on; entries without a name are passed over.
pub open spec fn tree_names(items: Seq<JsonNode>, i: int) -> Seq<Seq<u8>>
    decreases items.len() - i,
{
    if i < 0 || i >= items.len() {
        Seq::empty()
    } else {
        match tree_item_name(items[i]) {
            Some(nm) => seq![nm] + tree_names(items, i + 1),
            None => tree_names(items, i + 1),
        }
    }
}

fn item_name<'a>(v: &'a JsonValue) -> (r: Option<&'a Vec<u8>>)
    ensures
        match r {
            Some(nm) => tree_item_name(node_of(*v)) == Some(nm@),
            None => tree_item_name(node_of(*v)) is None,
        },
{
    match v {
        JsonValue::Obj(fields) => {
            let nk = key_name_x();
            match obj_lookup_from(fields, nk.as_slice(), 0) {
                Some(jv) => match jv {
                    JsonValue::Str(nm) => Some(nm),
                    _ => None,
                },
                None => None,
            }
        },
        _ => None,
    }
}

fn collect_tree_names(items: &Vec<JsonValue>, i: usize) -> (r: Vec<Vec<u8>>)
    requires
        i <= items@.len(),
    ensures
        bytes_seqs(r@) == tree_names(crate::json::items_node(items@), i as int),
    decreases items@.len() - i,
{
    proof {
        lemma_items_node(items@);
    }
    if i >= items.len() {
        let out: Vec<Vec<u8>> = Vec::new();
        proof {
            assert(bytes_seqs(out@) =~= tree_names(crate::json::items_node(items@), i as int));
        }
        return out;
    }
    let mut rest = collect_tree_names(items, i + 1);
    let ghost rest0 = rest@;
    match item_name(&items[i]) {
        Some(nm) => {
            let mut out: Vec<Vec<u8>> = Vec::new();
            out.push(slice_to_vec(nm.as_slice()));
            out.append(&mut rest);
            proof {
                assert(bytes_seqs(out@) =~= seq![nm@] + bytes_seqs(rest0));
            }
            out
        },
        None => rest,
    }
}

/// Whether a value is the report object: tagged `tree`, with its data tagged
/// `newAllDependencies`.
pub open spec fn spec_is_report(v: JsonNode) -> bool {
    match v {
        JsonNode::Obj(fields) => {
            &&& lookup_from(fields, key_type(), 0) == Some(JsonNode::Str(val_tree()))
            &&& match lookup_from(fields, key_data(), 0) {
                Some(JsonNode::Obj(df)) => lookup_from(df, key_type(), 0) == Some(
                    JsonNode::Str(val_new_all()),
                ),
                _ => false,
            }
        },
        _ => false,
    }
}

fn is_report(v: &JsonValue) -> (r: bool)
    ensures
        r == spec_is_report(node_of(*v)),
{
    match v {
        JsonValue::Obj(fields) => {
            let tk = key_type_x();
            let t_ok: bool = match obj_lookup_from(fields, tk.as_slice(), 0) {
                Some(jv) => match jv {
                    JsonValue::Str(sv) => {
                        let tv = val_tree_x();
                        bytes_eq(sv.as_slice(), tv.as_slice())
                    },
                    _ => false,
                },
                None => false,
            };
            if !t_ok {
                return false;
            }
            let dk = key_data_x();
            match obj_lookup_from(fields, dk.as_slice(), 0) {
                Some(jv) => match jv {
                    JsonValue::Obj(df) => {
                        match obj_lookup_from(df, tk.as_slice(), 0) {
                            Some(jv2) => match jv2 {
                                JsonValue::Str(s2) => {
                                    let nv = val_new_all_x();
                                    bytes_eq(s2.as_slice(), nv.as_slice())
                                },
                                _ => false,
                            },
                            None => false,
                        }
                    },
                    _ => false,
                },
                None => false,
            }
        },
        _ => false,
    }
}

/// The names listed under the report's `data.trees`; empty when the report
/// carries no such list.
pub open spec fn spec_report_names(v: JsonNode) -> Seq<Seq<u8>> {
    match v {
        JsonNode::Obj(fields) => match lookup_from(fields, key_data(), 0) {
            Some(JsonNode::Obj(df)) => match lookup_from(df, key_trees(), 0) {
                Some(JsonNode::Arr(items)) => tree_names(items, 0),
                _ => Seq::empty(),
            },
            _ => Seq::empty(),
        },
        _ => Seq::empty(),
    }
}

fn report_names(v: &JsonValue) -> (r: Vec<Vec<u8>>)
    ensures
        bytes_seqs(r@) == spec_report_names(node_of(*v)),
{
    let empty: Vec<Vec<u8>> = Vec::new();
    proof {
        assert(bytes_seqs(empty@) =~= Seq::<Seq<u8>>::empty());
    }
    match v {
        JsonValue::Obj(fields) => {
            let dk = key_data_x();
            match obj_lookup_from(fields, dk.as_slice(), 0) {
                Some(jv) => match jv {
                    JsonValue::Obj(df) => {
                        let trk = key_trees_x();
                        match obj_lookup_from(df, trk.as_slice(), 0) {
                            Some(jv2) => match jv2 {
                                JsonValue::Arr(items) => collect_tree_names(items, 0),
                                _ => empty,
                            },
                            None => empty,
                        }
                    },
                    _ => empty,
                },
                None => empty,
            }
        },
        _ => empty,
    }
}

/// The list with every repeated entry dropped: each entry is kept at its
/// first occurrence only, in order.
pub open spec fn spec_dedup(s: Seq<Seq<u8>>) -> Seq<Seq<u8>>
    decreases s.len(),
{
    if s.len() == 0 {
        Seq::empty()
    } else {
        let prefix = s.drop_last();
        let rest = spec_dedup(prefix);
        if prefix.contains(s.last()) {
            rest
        } else {
            rest.push(s.last())
        }
    }
}

/// Deduplication keeps the members and only the members, each exactly once:
/// the result holds the same entries as the input, pairwise distinct.
pub proof fn lemma_dedup_props(s: Seq<Seq<u8>>)
    ensures
        forall|y: Seq<u8>| #[trigger] spec_dedup(s).contains(y) <==> s.contains(y),
        forall|k: int, m: int|
            0 <= k < m < spec_dedup(s).len() ==> #[trigger] spec_dedup(s)[k]
                != #[trigger] spec_dedup(s)[m],
    decreases s.len(),
{
    if s.len() > 0 {
        let prefix = s.drop_last();
        let last = s.last();
        let rest = spec_dedup(prefix);
        let d = spec_dedup(s);
        lemma_dedup_props(prefix);
        assert(s[s.len() - 1] == last);
        assert(s.contains(last));
        assert forall|y: Seq<u8>| s.contains(y) && y != last implies prefix.contains(y) by {
            let i = choose|i: int| 0 <= i < s.len() && s[i] == y;
            assert(i < s.len() - 1);
            assert(prefix[i] == y);
        }
        assert forall|y: Seq<u8>| prefix.contains(y) implies s.contains(y) by {
            let i = choose|i: int| 0 <= i < prefix.len() && prefix[i] == y;
            assert(s[i] == y);
        }
        if prefix.contains(last) {
            assert(d == rest);
            assert forall|y: Seq<u8>| #[trigger] d.contains(y) implies s.contains(y) by {
                assert(rest.contains(y));
                assert(prefix.contains(y));
            }
            assert forall|y: Seq<u8>| s.contains(y) implies #[trigger] d.contains(y) by {
                if y == last {
                    assert(prefix.contains(last));
                    assert(rest.contains(last));
                } else {
                    assert(prefix.contains(y));
                    assert(rest.contains(y));
                }
            }
            assert forall|k: int, m: int|
                0 <= k < m < d.len() implies #[trigger] d[k] != #[trigger] d[m] by {
                assert(d[k] == rest[k] && d[m] == rest[m]);
            }
        } else {
            assert(d == rest.push(last));
            assert(d[d.len() - 1] == last);
            assert forall|y: Seq<u8>| #[trigger] d.contains(y) implies s.contains(y) by {
                let i = choose|i: int| 0 <= i < d.len() && d[i] == y;
                if i < rest.len() {
                    assert(rest[i] == y);
                    assert(rest.contains(y));
                    assert(prefix.contains(y));
                }
            }
            assert forall|y: Seq<u8>| s.contains(y) implies #[trigger] d.contains(y) by {
                if y != last {
                    assert(prefix.contains(y));
                    assert(rest.contains(y));
                    let i = choose|i: int| 0 <= i < rest.len() && rest[i] == y;
                    assert(d[i] == y);
                }
            }
            assert forall|k: int, m: int|
                0 <= k < m < d.len() implies #[trigger] d[k] != #[trigger] d[m] by {
                if m < rest.len() {
                    assert(d[k] == rest[k] && d[m] == rest[m]);
                } else {
                    assert(m == rest.len() && d[m] == last);
                    assert(d[k] == rest[k]);
                    if d[k] == last {
                        assert(rest.contains(last));
                        assert(prefix.contains(last));
                    }
                }
            }
        }
    }
}

fn contains_bytes(v: &Vec<Vec<u8>>, x: &Vec<u8>) -> (r: bool)
    ensures
        r == bytes_seqs(v@).contains(x@),
{
    let mut i: usize = 0;
    while i < v.len()
        invariant
            i <= v@.len(),
            forall|j: int| 0 <= j < i ==> bytes_seqs(v@)[j] != x@,
        decreases v@.len() - i,
    {
        if bytes_eq((&v[i]).as_slice(), x.as_slice()) {
            proof {
                assert(bytes_seqs(v@)[i as int] == x@);
                assert(bytes_seqs(v@).contains(x@));
            }
            return true;
        }
        i = i + 1;
    }
    proof {
        assert forall|j: int|
            0 <= j < bytes_seqs(v@).len() implies #[trigger] bytes_seqs(v@)[j] != x@ by {}
        assert(!bytes_seqs(v@).contains(x@));
    }
    false
}

fn dedup_names(raw: &Vec<Vec<u8>>) -> (r: Vec<Vec<u8>>)
    ensures
        bytes_seqs(r@) == spec_dedup(bytes_seqs(raw@)),
{
    let mut out: Vec<Vec<u8>> = Vec::new();
    let mut i: usize = 0;
    proof {
        assert(bytes_seqs(raw@).subrange(0, 0) =~= Seq::<Seq<u8>>::empty());
        assert(bytes_seqs(out@) =~= Seq::<Seq<u8>>::empty());
    }
    while i < raw.len()
        invariant
            i <= raw@.len(),
            bytes_seqs(out@) == spec_dedup(bytes_seqs(raw@).subrange(0, i as int)),
        decreases raw@.len() - i,
    {
        let ghost full = bytes_seqs(raw@);
        let ghost prefix = full.subrange(0, i as int);
        let ghost prefix1 = full.subrange(0, i as int + 1);
        proof {
            assert(prefix1.drop_last() =~= prefix);
            assert(prefix1.last() == raw@[i as int]@);
            lemma_dedup_props(prefix);
        }
        let present = contains_bytes(&out, &raw[i]);
        if !present {
            let ghost out0 = bytes_seqs(out@);
            out.push(slice_to_vec((&raw[i]).as_slice()));
            proof {
                assert(bytes_seqs(out@) =~= out0.push(raw@[i as int]@));
            }
        }
        i = i + 1;
    }
    proof {
        assert(bytes_seqs(raw@).subrange(0, raw@.len() as int) =~= bytes_seqs(raw@));
    }
    out
}

/// Whether a byte separates tokens in command output.
pub open spec fn is_ws(c: u8) -> bool {
    c == 32 || c == 9 || c == 10 || c == 12 || c == 13
}

fn is_ws_x(c: u8) -> (r: bool)
    ensures
        r == is_ws(c),
{
    c == 32 || c == 9 || c == 10 || c == 12 || c == 13
}

/// End of the token that starts at `i`: the first whitespace position at or
/// after `i`, or the end of the output.
pub open spec fn token_end(s: Seq<u8>, i: int) -> int
    decreases s.len() - i,
{
    if 0 <= i < s.len() && !is_ws(s[i]) {
        token_end(s, i + 1)
    } else {
        i
    }
}

fn token_end_x(s: &[u8], i: usize) -> (r: usize)
    requires
        i <= s@.len(),
    ensures
        r == token_end(s@, i as int),
        i <= r <= s@.len(),
    decreases s@.len() - i,
{
    if i < s.len() && !is_ws_x(s[i]) {
        token_end_x(s, i + 1)
    } else {
        i
    }
}

/// Whether a token begins at `i`.
pub open spec fn is_token_start(s: Seq<u8>, i: int) -> bool {
    0 <= i < s.len() && !is_ws(s[i]) && (i == 0 || is_ws(s[i - 1]))
}

/// The report found in the token beginning at `i`, if one begins there and is
/// a report.
pub open spec fn report_at(s: Seq<u8>, i: int) -> Option<JsonNode> {
    if is_token_start(s, i) {
        match spec_parse(s.subrange(i, token_end(s, i))) {
            Some(v) => if spec_is_report(v) {
                Some(v)
            } else {
                None
            },
            None => None,
        }
    } else {
        None
    }
}

/// The first token of `s`, from position `i` on, that is a dependency-tree
/// report.
pub open spec fn spec_find_report(s: Seq<u8>, i: int) -> Option<JsonNode>
    decreases s.len() - i,
{
    if i < 0 || i >= s.len() {
        None
    } else {
        match report_at(s, i) {
            Some(v) => Some(v),
            None => spec_find_report(s, i + 1),
        }
    }
}

fn find_report(s: &[u8]) -> (r: Option<JsonValue>)
    ensures
        match r {
            Some(v) => spec_find_report(s@, 0) == Some(node_of(v)),
            None => spec_find_report(s@, 0) is None,
        },
{
    let mut i: usize = 0;
    while i < s.len()
        invariant
            i <= s@.len(),
            spec_find_report(s@, 0) == spec_find_report(s@, i as int),
        decreases s@.len() - i,
    {
        let start_ok: bool = !is_ws_x(s[i]) && (i == 0 || is_ws_x(s[i - 1]));
        if start_ok {
            let j = token_end_x(s, i);
            match parse_json(&s[i..j]) {
                Some(v) => {
                    if is_report(&v) {
                        proof {
                            assert(report_at(s@, i as int) == Some(node_of(v)));
                        }
                        return Some(v);
                    }
                },
                None => {},
            }
        }
        proof {
            assert(report_at(s@, i as int) is None);
            assert(spec_find_report(s@, i as int) == spec_find_report(s@, i as int + 1));
        }
        i = i + 1;
    }
    None
}

/// Whether every byte is ASCII.
pub open spec fn ascii_seq(s: Seq<u8>) -> bool {
    forall|k: int| 0 <= k < s.len() ==> s[k] < 128
}

/// The characters that a run of ASCII bytes spells.
pub open spec fn bytes_chars(s: Seq<u8>) -> Seq<char> {
    Seq::new(s.len(), |k: int| s[k] as char)
}

/// Relies on `String::from_utf8_lossy` (and `Cow::into_owned`): bytes that
/// are all ASCII decode to exactly those characters.
#[verifier::external_body]
fn lossy_string(b: &[u8]) -> (r: String)
    ensures
        ascii_seq(b@) ==> r@ == bytes_chars(b@),
{
    String::from_utf8_lossy(b).into_owned()
}

/// The duplicate-free set of package names that the update reports: the
/// report's names with every repeated entry dropped, first occurrences kept
/// in order.
pub open spec fn spec_update_names(v: JsonNode) -> Seq<Seq<u8>> {
    spec_dedup(spec_report_names(v))
}

/// Reads the upgrade command's output: finds the first whitespace-separated
/// token that is a JSON object tagged as a dependency-tree report and returns
/// the duplicate-free set of package names under its `data.trees` — each
/// name once, first occurrences in order.  Output with no such token is a
/// parse failure; every other line is ignored.
pub fn update_js_repository(output: &[u8], _cfg: Option<JSConfig>) -> (r: Result<
    Vec<String>,
    UpdateError,
>)
    ensures
        match spec_find_report(output@, 0) {
            Some(v) => r matches Ok(names) && {
                &&& names@.len() == spec_update_names(v).len()
                &&& (forall|k: int|
                    0 <= k < names@.len() && ascii_seq(#[trigger] spec_update_names(v)[k])
                        ==> names@[k]@ == bytes_chars(spec_update_names(v)[k]))
                &&& (forall|k: int, m: int|
                    0 <= k < m < spec_update_names(v).len() ==> #[trigger] spec_update_names(v)[k]
                        != #[trigger] spec_update_names(v)[m])
                &&& (forall|y: Seq<u8>| #[trigger]
                    spec_update_names(v).contains(y) <==> spec_report_names(v).contains(y))
            },
            None => (r matches Err(e) && e == UpdateError::OutputParseFailed),
        },
{
    match find_report(output) {
        Some(v) => {
            let raw = report_names(&v);
            let uniq = dedup_names(&raw);
            proof {
                lemma_dedup_props(spec_report_names(node_of(v)));
            }
            let mut out: Vec<String> = Vec::new();
            let mut k: usize = 0;
            while k < uniq.len()
                invariant
                    k <= uniq@.len(),
                    out@.len() == k,
                    bytes_seqs(uniq@) == spec_update_names(node_of(v)),
                    forall|m: int|
                        0 <= m < k && ascii_seq(#[trigger] bytes_seqs(uniq@)[m]) ==> out@[m]@
                            == bytes_chars(bytes_seqs(uniq@)[m]),
                decreases uniq@.len() - k,
            {
                let s = lossy_string(uniq[k].as_slice());
                out.push(s);
                k = k + 1;
            }
            Ok(out)
        },
        None => Err(UpdateError::OutputParseFailed),
    }
}

} // verus!
