//! Selection nodes and the recursive value filter they drive.

use vstd::prelude::*;
use vstd::string::StringExecFns;

use crate::json::Json;
use crate::json::JsonVal;
use crate::json::arr_height;
use crate::json::jheight;
use crate::json::lemma_arr_height_bound;
use crate::json::lemma_arr_height_elem;
use crate::json::lemma_array_view;
use crate::json::lemma_obj_height_elem;
use crate::json::lemma_obj_lookup_height;
use crate::json::lemma_object_view;
use crate::json::max_nat;
use crate::json::obj_height;
use crate::json::obj_lookup;
use crate::json::clone_number;

use crate::ast::ArgValue;
use crate::ast::FieldNode;
use crate::ast::QueryDefinition;
use crate::ast::QueryDoc;
use crate::ast::Selection;
use crate::ast::SelectionList;
use crate::ast::ast_of_selection_set;
use crate::ast::selection_ast;

verus! {

/// One compiled selection node: which field to keep and how to recurse into
/// it. A whole plan is a list of nodes, one per selected field, in query
/// order.
///
/// - `Field(name)`: keep the value at `name` unchanged (filtered with the
///   empty selection, which recurses through arrays but keeps scalars).
/// - `Object(name, children)`: keep `name`, filtered with `children`.
/// - `Entries(name, children)`: keep `name`, but first turn an object value
///   into an array of `{key, value}` pairs, then filter each pair with
///   `children`; a non-object value falls back to `Object` behaviour.
#[derive(Debug, PartialEq)]
pub enum Filters {
    Field(String),
    Object(String, Vec<Filters>),
    Entries(String, Vec<Filters>),
}

/// The mathematical model of one selection node.
pub enum FiltersView {
    Field(Seq<char>),
    Object(Seq<char>, Seq<FiltersView>),
    Entries(Seq<char>, Seq<FiltersView>),
}

pub open spec fn filters_view(f: Filters) -> FiltersView
    decreases f,
{
    match f {
        Filters::Field(name) => FiltersView::Field(name@),
        Filters::Object(name, sub) => FiltersView::Object(
            name@,
            Seq::new(
                sub@.len(),
                |i: int|
                    if 0 <= i < sub@.len() {
                        filters_view(sub@[i])
                    } else {
                        FiltersView::Field(Seq::empty())
                    },
            ),
        ),
        Filters::Entries(name, sub) => FiltersView::Entries(
            name@,
            Seq::new(
                sub@.len(),
                |i: int|
                    if 0 <= i < sub@.len() {
                        filters_view(sub@[i])
                    } else {
                        FiltersView::Field(Seq::empty())
                    },
            ),
        ),
    }
}

impl DeepView for Filters {
    type V = FiltersView;

    open spec fn deep_view(&self) -> FiltersView {
        filters_view(*self)
    }
}

/// `filters_view` and the element-wise deep view of a node list agree.
pub proof fn lemma_filters_object_view(name: String, sub: Vec<Filters>)
    ensures
        filters_view(Filters::Object(name, sub)) == FiltersView::Object(name@, sub.deep_view()),
{
    assert(filters_view(Filters::Object(name, sub))->Object_1 =~= sub.deep_view());
}

pub proof fn lemma_filters_entries_view(name: String, sub: Vec<Filters>)
    ensures
        filters_view(Filters::Entries(name, sub)) == FiltersView::Entries(name@, sub.deep_view()),
{
    assert(filters_view(Filters::Entries(name, sub))->Entries_1 =~= sub.deep_view());
}

/// The two-pair object `{"key": k, "value": v}` that the entries
/// transformation builds for one source pair.
pub open spec fn spec_entry_pair(k: Seq<char>, v: JsonVal) -> Seq<(Seq<char>, JsonVal)> {
    seq![("key"@, JsonVal::Str(k)), ("value"@, v)]
}

pub proof fn lemma_entry_pair_height(k: Seq<char>, v: JsonVal)
    ensures
        obj_height(spec_entry_pair(k, v)) == jheight(v),
{
    let pair = spec_entry_pair(k, v);
    let tail: Seq<(Seq<char>, JsonVal)> = seq![("value"@, v)];
    assert(pair.subrange(1, 2) =~= tail);
    assert(tail.subrange(1, 1) =~= Seq::<(Seq<char>, JsonVal)>::empty());
    assert(obj_height(Seq::<(Seq<char>, JsonVal)>::empty()) == 0);
    assert(obj_height(tail) == max_nat(jheight(v), 0));
    assert(jheight(JsonVal::Str(k)) == 0);
    assert(obj_height(pair) == max_nat(jheight(JsonVal::Str(k)), obj_height(tail)));
}

/// What filtering `v` with the selection list `fs` returns: scalars pass
/// through unchanged, arrays are filtered element by element with the same
/// list, and objects keep exactly the selected fields, in selection order.
pub open spec fn spec_filter_value(fs: Seq<FiltersView>, v: JsonVal) -> JsonVal
    decreases jheight(v), 0nat, 0nat,
{
    match v {
        JsonVal::Obj(o) => JsonVal::Obj(spec_filter_object(fs, o)),
        JsonVal::Arr(s) => JsonVal::Arr(spec_filter_array(fs, s)),
        _ => v,
    }
}

pub open spec fn spec_filter_array(fs: Seq<FiltersView>, s: Seq<JsonVal>) -> Seq<JsonVal>
    decreases arr_height(s), 1nat, s.len(),
{
    if s.len() == 0 {
        Seq::empty()
    } else {
        seq![spec_filter_value(fs, s[0])] + spec_filter_array(fs, s.subrange(1, s.len() as int))
    }
}

/// One output pair per selection node whose field exists in `o`, in
/// selection order; a missing field is silently omitted.
pub open spec fn spec_filter_object(
    fs: Seq<FiltersView>,
    o: Seq<(Seq<char>, JsonVal)>,
) -> Seq<(Seq<char>, JsonVal)>
    decreases obj_height(o), 1nat, fs.len(),
    via spec_filter_object_dec
{
    if fs.len() == 0 {
        Seq::empty()
    } else {
        let head: Seq<(Seq<char>, JsonVal)> = match fs[0] {
            FiltersView::Field(name) => match obj_lookup(o, name) {
                Some(v) => seq![(name, spec_filter_value(Seq::empty(), v))],
                None => Seq::empty(),
            },
            FiltersView::Object(name, sub) => match obj_lookup(o, name) {
                Some(v) => seq![(name, spec_filter_value(sub, v))],
                None => Seq::empty(),
            },
            FiltersView::Entries(name, sub) => match obj_lookup(o, name) {
                Some(v) => if v is Obj {
                    seq![(name, JsonVal::Arr(spec_filter_entries(sub, v->Obj_0)))]
                } else {
                    seq![(name, spec_filter_value(sub, v))]
                },
                None => Seq::empty(),
            },
        };
        head + spec_filter_object(fs.subrange(1, fs.len() as int), o)
    }
}

#[via_fn]
proof fn spec_filter_object_dec(fs: Seq<FiltersView>, o: Seq<(Seq<char>, JsonVal)>) {
    if fs.len() > 0 {
        match fs[0] {
            FiltersView::Field(name) => lemma_obj_lookup_height(o, name),
            FiltersView::Object(name, _) => lemma_obj_lookup_height(o, name),
            FiltersView::Entries(name, _) => lemma_obj_lookup_height(o, name),
        }
    }
}

/// The entries transformation: one `{key, value}` pair-object per source
/// pair, each filtered as an object with `fs`, in source key order.
pub open spec fn spec_filter_entries(
    fs: Seq<FiltersView>,
    items: Seq<(Seq<char>, JsonVal)>,
) -> Seq<JsonVal>
    decreases obj_height(items), 2nat, items.len(),
    via spec_filter_entries_dec
{
    if items.len() == 0 {
        Seq::empty()
    } else {
        seq![JsonVal::Obj(spec_filter_object(fs, spec_entry_pair(items[0].0, items[0].1)))]
            + spec_filter_entries(fs, items.subrange(1, items.len() as int))
    }
}

#[via_fn]
proof fn spec_filter_entries_dec(fs: Seq<FiltersView>, items: Seq<(Seq<char>, JsonVal)>) {
    if items.len() > 0 {
        lemma_entry_pair_height(items[0].0, items[0].1);
        lemma_obj_height_elem(items, 0);
    }
}

/// The filtered array has the same length as the source and each element is
/// the filtered source element.
pub proof fn lemma_filter_array_elems(fs: Seq<FiltersView>, s: Seq<JsonVal>)
    ensures
        spec_filter_array(fs, s).len() == s.len(),
        forall|i: int|
            0 <= i < s.len() ==> #[trigger] spec_filter_array(fs, s)[i] == spec_filter_value(
                fs,
                s[i],
            ),
    decreases s.len(),
{
    if s.len() > 0 {
        let rest = s.subrange(1, s.len() as int);
        lemma_filter_array_elems(fs, rest);
        assert forall|i: int| 0 <= i < s.len() implies #[trigger] spec_filter_array(fs, s)[i]
            == spec_filter_value(fs, s[i]) by {
            if i > 0 {
                assert(rest[i - 1] == s[i]);
            }
        }
    }
}

/// The entries result has one pair-object per source pair.
pub proof fn lemma_filter_entries_elems(fs: Seq<FiltersView>, items: Seq<(Seq<char>, JsonVal)>)
    ensures
        spec_filter_entries(fs, items).len() == items.len(),
        forall|i: int|
            0 <= i < items.len() ==> #[trigger] spec_filter_entries(fs, items)[i] == JsonVal::Obj(
                spec_filter_object(fs, spec_entry_pair(items[i].0, items[i].1)),
            ),
    decreases items.len(),
{
    if items.len() > 0 {
        let rest = items.subrange(1, items.len() as int);
        lemma_filter_entries_elems(fs, rest);
        assert forall|i: int| 0 <= i < items.len() implies #[trigger] spec_filter_entries(
            fs,
            items,
        )[i] == JsonVal::Obj(spec_filter_object(fs, spec_entry_pair(items[i].0, items[i].1))) by {
            if i > 0 {
                assert(rest[i - 1] == items[i]);
            }
        }
    }
}

/// Looks up `key` in an object's pair vector, returning the first matching
/// value.
fn object_get<'a>(obj: &'a Vec<(String, Json)>, key: &String) -> (r: Option<&'a Json>)
    ensures
        match r {
            Some(v) => obj_lookup(obj.deep_view(), key@) == Some(v.deep_view()),
            None => obj_lookup(obj.deep_view(), key@) is None,
        },
{
    let ghost full = obj.deep_view();
    let mut i: usize = 0;
    proof {
        assert(full.subrange(0, full.len() as int) =~= full);
    }
    while i < obj.len()
        invariant
            0 <= i <= obj.len(),
            full == obj.deep_view(),
            full.len() == obj.len(),
            obj_lookup(full, key@) == obj_lookup(full.subrange(i as int, full.len() as int), key@),
        decreases obj.len() - i,
    {
        let ghost sub = full.subrange(i as int, full.len() as int);
        if obj[i].0 == *key {
            proof {
                assert(sub[0] == full[i as int]);
                assert(full[i as int].0 == key@);
            }
            return Some(&obj[i].1);
        }
        proof {
            assert(sub[0] == full[i as int]);
            assert(sub.subrange(1, sub.len() as int) =~= full.subrange(
                i + 1,
                full.len() as int,
            ));
        }
        i = i + 1;
    }
    proof {
        assert(full.subrange(i as int, full.len() as int) =~= Seq::<
            (Seq<char>, JsonVal),
        >::empty());
    }
    None
}

/// A fresh value equal to the argument.
pub fn clone_json(j: &Json) -> (r: Json)
    ensures
        r.deep_view() == j.deep_view(),
    decreases jheight(j.deep_view()),
{
    match j {
        Json::Null => Json::Null,
        Json::Bool(b) => Json::Bool(*b),
        Json::Num(n) => Json::Num(clone_number(n)),
        Json::Str(s) => Json::Str(s.clone()),
        Json::Array(a) => {
            proof {
                lemma_array_view(*a);
            }
            let mut out: Vec<Json> = Vec::new();
            let mut i: usize = 0;
            while i < a.len()
                invariant
                    0 <= i <= a.len(),
                    out@.len() == i as int,
                    *j == Json::Array(*a),
                    forall|t: int|
                        0 <= t < i as int ==> #[trigger] out.deep_view()[t] == a.deep_view()[t],
                decreases a.len() - i,
            {
                proof {
                    lemma_array_view(*a);
                    lemma_arr_height_elem(a.deep_view(), i as int);
                    assert(a.deep_view()[i as int] == a@[i as int].deep_view());
                }
                let c = clone_json(&a[i]);
                let ghost prev = out.deep_view();
                let ghost cv = c.deep_view();
                out.push(c);
                proof {
                    assert(out.deep_view() =~= prev.push(cv));
                }
                i = i + 1;
            }
            proof {
                lemma_array_view(out);
                assert(out.deep_view() =~= a.deep_view());
            }
            Json::Array(out)
        },
        Json::Object(o) => {
            proof {
                lemma_object_view(*o);
            }
            let mut out: Vec<(String, Json)> = Vec::new();
            let mut i: usize = 0;
            while i < o.len()
                invariant
                    0 <= i <= o.len(),
                    out@.len() == i as int,
                    *j == Json::Object(*o),
                    forall|t: int|
                        0 <= t < i as int ==> #[trigger] out.deep_view()[t] == o.deep_view()[t],
                decreases o.len() - i,
            {
                proof {
                    lemma_object_view(*o);
                    lemma_obj_height_elem(o.deep_view(), i as int);
                    assert(o.deep_view()[i as int] == (o@[i as int].0@, o@[i as int].1.deep_view()));
                }
                let k = o[i].0.clone();
                let v = clone_json(&o[i].1);
                let ghost prev = out.deep_view();
                let ghost pv = (k@, v.deep_view());
                out.push((k, v));
                proof {
                    assert(out.deep_view() =~= prev.push(pv));
                }
                i = i + 1;
            }
            proof {
                lemma_object_view(out);
                assert(out.deep_view() =~= o.deep_view());
            }
            Json::Object(out)
        },
    }
}

/// Filters `data` with the compiled selection list, producing a fresh value:
/// scalars pass through unchanged, arrays are filtered element by element,
/// and objects keep exactly the selected fields, in selection order.
pub fn filter_value(filters: &Vec<Filters>, data: &Json) -> (r: Json)
    ensures
        r.deep_view() == spec_filter_value(filters.deep_view(), data.deep_view()),
    decreases jheight(data.deep_view()), 0nat, 0nat,
{
    match data {
        Json::Null => Json::Null,
        Json::Bool(b) => Json::Bool(*b),
        Json::Num(n) => Json::Num(clone_number(n)),
        Json::Str(s) => Json::Str(s.clone()),
        Json::Array(a) => {
            proof {
                lemma_array_view(*a);
            }
            let out = filter_array(filters, a);
            proof {
                lemma_array_view(out);
            }
            Json::Array(out)
        },
        Json::Object(o) => {
            proof {
                lemma_object_view(*o);
            }
            let out = filter_object(filters, o);
            proof {
                lemma_object_view(out);
            }
            Json::Object(out)
        },
    }
}

fn filter_array(filters: &Vec<Filters>, arr: &Vec<Json>) -> (r: Vec<Json>)
    ensures
        r.deep_view() == spec_filter_array(filters.deep_view(), arr.deep_view()),
    decreases arr_height(arr.deep_view()), 1nat, 0nat,
{
    let ghost fsv = filters.deep_view();
    let ghost av = arr.deep_view();
    let mut out: Vec<Json> = Vec::new();
    let mut i: usize = 0;
    while i < arr.len()
        invariant
            0 <= i <= arr.len(),
            fsv == filters.deep_view(),
            av == arr.deep_view(),
            av.len() == arr.len(),
            out@.len() == i as int,
            forall|t: int|
                0 <= t < i as int ==> #[trigger] out.deep_view()[t] == spec_filter_value(
                    fsv,
                    av[t],
                ),
        decreases arr.len() - i,
    {
        proof {
            lemma_arr_height_elem(av, i as int);
            assert(av[i as int] == arr@[i as int].deep_view());
        }
        let f = filter_value(filters, &arr[i]);
        let ghost prev = out.deep_view();
        let ghost fdv = f.deep_view();
        out.push(f);
        proof {
            assert(out.deep_view() =~= prev.push(fdv));
        }
        i = i + 1;
    }
    proof {
        lemma_filter_array_elems(fsv, av);
        assert(out.deep_view() =~= spec_filter_array(fsv, av));
    }
    out
}

fn filter_object(filters: &Vec<Filters>, obj: &Vec<(String, Json)>) -> (r: Vec<(String, Json)>)
    ensures
        r.deep_view() == spec_filter_object(filters.deep_view(), obj.deep_view()),
    decreases obj_height(obj.deep_view()), 2nat, 0nat,
{
    let ghost fsv = filters.deep_view();
    let ghost ov = obj.deep_view();
    let mut out: Vec<(String, Json)> = Vec::new();
    let mut i: usize = 0;
    proof {
        assert(fsv.subrange(0, fsv.len() as int) =~= fsv);
    }
    while i < filters.len()
        invariant
            0 <= i <= filters.len(),
            fsv == filters.deep_view(),
            ov == obj.deep_view(),
            fsv.len() == filters.len(),
            spec_filter_object(fsv, ov) == out.deep_view() + spec_filter_object(
                fsv.subrange(i as int, fsv.len() as int),
                ov,
            ),
        decreases filters.len() - i,
    {
        let ghost rest = fsv.subrange(i as int, fsv.len() as int);
        proof {
            assert(rest[0] == fsv[i as int]);
            assert(rest.subrange(1, rest.len() as int) =~= fsv.subrange(
                i + 1 as int,
                fsv.len() as int,
            ));
        }
        let ghost before = out.deep_view();
        let ghost tail = spec_filter_object(fsv.subrange(i + 1 as int, fsv.len() as int), ov);
        match &filters[i] {
            Filters::Field(name) => {
                proof {
                    assert(fsv[i as int] == FiltersView::Field(name@));
                }
                match object_get(obj, name) {
                    Some(v) => {
                        proof {
                            lemma_obj_lookup_height(ov, name@);
                        }
                        let empty_filters: Vec<Filters> = Vec::new();
                        proof {
                            assert(empty_filters.deep_view() =~= Seq::<FiltersView>::empty());
                        }
                        let f = filter_value(&empty_filters, v);
                        let ghost fdv = f.deep_view();
                        out.push((name.clone(), f));
                        proof {
                            let p = (name@, fdv);
                            assert(out.deep_view() =~= before + seq![p]);
                            assert((before + seq![p]) + tail =~= before + (seq![p] + tail));
                        }
                    },
                    None => {
                        proof {
                            assert(before + (Seq::<(Seq<char>, JsonVal)>::empty() + tail) =~=
                                before + tail);
                        }
                    },
                }
            },
            Filters::Object(name, sub) => {
                proof {
                    lemma_filters_object_view(*name, *sub);
                    assert(fsv[i as int] == FiltersView::Object(name@, sub.deep_view()));
                }
                match object_get(obj, name) {
                    Some(v) => {
                        proof {
                            lemma_obj_lookup_height(ov, name@);
                        }
                        let f = filter_value(sub, v);
                        let ghost fdv = f.deep_view();
                        out.push((name.clone(), f));
                        proof {
                            let p = (name@, fdv);
                            assert(out.deep_view() =~= before + seq![p]);
                            assert((before + seq![p]) + tail =~= before + (seq![p] + tail));
                        }
                    },
                    None => {
                        proof {
                            assert(before + (Seq::<(Seq<char>, JsonVal)>::empty() + tail) =~=
                                before + tail);
                        }
                    },
                }
            },
            Filters::Entries(name, sub) => {
                proof {
                    lemma_filters_entries_view(*name, *sub);
                    assert(fsv[i as int] == FiltersView::Entries(name@, sub.deep_view()));
                }
                match object_get(obj, name) {
                    Some(v) => {
                        proof {
                            lemma_obj_lookup_height(ov, name@);
                        }
                        match v {
                            Json::Object(items) => {
                                proof {
                                    lemma_object_view(*items);
                                }
                                let arr = filter_entry_pairs(sub, items);
                                proof {
                                    lemma_array_view(arr);
                                }
                                let ghost adv = Json::Array(arr).deep_view();
                                out.push((name.clone(), Json::Array(arr)));
                                proof {
                                    let p = (name@, adv);
                                    assert(out.deep_view() =~= before + seq![p]);
                                    assert((before + seq![p]) + tail =~= before + (
                                    seq![p] + tail));
                                }
                            },
                            _ => {
                                let f = filter_value(sub, v);
                                let ghost fdv = f.deep_view();
                                out.push((name.clone(), f));
                                proof {
                                    let p = (name@, fdv);
                                    assert(v.deep_view() !is Obj);
                                    assert(out.deep_view() =~= before + seq![p]);
                                    assert((before + seq![p]) + tail =~= before + (
                                    seq![p] + tail));
                                }
                            },
                        }
                    },
                    None => {
                        proof {
                            assert(before + (Seq::<(Seq<char>, JsonVal)>::empty() + tail) =~=
                                before + tail);
                        }
                    },
                }
            },
        }
        proof {
            assert(spec_filter_object(fsv, ov) == out.deep_view() + tail);
        }
        i = i + 1;
    }
    proof {
        assert(fsv.subrange(i as int, fsv.len() as int) =~= Seq::<FiltersView>::empty());
        assert(out.deep_view() + Seq::<(Seq<char>, JsonVal)>::empty() =~= out.deep_view());
    }
    out
}

/// The entries transformation for one object value: builds the array of
/// `{key, value}` pair-objects and filters it with `filters`.
fn filter_entry_pairs(filters: &Vec<Filters>, items: &Vec<(String, Json)>) -> (r: Vec<Json>)
    ensures
        r.deep_view() == spec_filter_entries(filters.deep_view(), items.deep_view()),
    decreases obj_height(items.deep_view()) + 1, 1nat, 1nat,
{
    let ghost fsv = filters.deep_view();
    let ghost iv = items.deep_view();
    let mut pairs: Vec<Json> = Vec::new();
    let mut k: usize = 0;
    while k < items.len()
        invariant
            0 <= k <= items.len(),
            iv == items.deep_view(),
            iv.len() == items.len(),
            pairs@.len() == k as int,
            forall|t: int|
                0 <= t < k as int ==> #[trigger] pairs.deep_view()[t] == JsonVal::Obj(
                    spec_entry_pair(iv[t].0, iv[t].1),
                ),
        decreases items.len() - k,
    {
        proof {
            lemma_obj_height_elem(iv, k as int);
            assert(iv[k as int] == (items@[k as int].0@, items@[k as int].1.deep_view()));
        }
        let mut pair_fields: Vec<(String, Json)> = Vec::new();
        pair_fields.push(("key".to_owned(), Json::Str(items[k].0.clone())));
        pair_fields.push(("value".to_owned(), clone_json(&items[k].1)));
        proof {
            lemma_object_view(pair_fields);
            assert(pair_fields.deep_view() =~= spec_entry_pair(iv[k as int].0, iv[k as int].1));
        }
        let pj = Json::Object(pair_fields);
        let ghost prev = pairs.deep_view();
        let ghost pjv = pj.deep_view();
        pairs.push(pj);
        proof {
            assert(pairs.deep_view() =~= prev.push(pjv));
        }
        k = k + 1;
    }
    proof {
        assert forall|t: int| 0 <= t < iv.len() implies jheight(#[trigger] pairs.deep_view()[t])
            <= obj_height(iv) + 1 by {
            lemma_entry_pair_height(iv[t].0, iv[t].1);
            lemma_obj_height_elem(iv, t);
        }
        lemma_arr_height_bound(pairs.deep_view(), obj_height(iv) + 1);
    }
    let out = filter_array(filters, &pairs);
    proof {
        lemma_filter_array_elems(fsv, pairs.deep_view());
        lemma_filter_entries_elems(fsv, iv);
        assert forall|t: int| 0 <= t < iv.len() implies #[trigger] out.deep_view()[t]
            == spec_filter_entries(fsv, iv)[t] by {
            assert(out.deep_view()[t] == spec_filter_value(fsv, pairs.deep_view()[t]));
            assert(pairs.deep_view()[t] == JsonVal::Obj(spec_entry_pair(iv[t].0, iv[t].1)));
        }
        assert(out.deep_view() =~= spec_filter_entries(fsv, iv));
    }
    out
}

/// The field name a selection node keeps.
pub open spec fn spec_node_name(n: FiltersView) -> Seq<char> {
    match n {
        FiltersView::Field(name) => name,
        FiltersView::Object(name, _) => name,
        FiltersView::Entries(name, _) => name,
    }
}

/// The selection names that exist in `o`, in selection order.
pub open spec fn spec_selected_names(
    fs: Seq<FiltersView>,
    o: Seq<(Seq<char>, JsonVal)>,
) -> Seq<Seq<char>>
    decreases fs.len(),
{
    if fs.len() == 0 {
        Seq::empty()
    } else {
        let head: Seq<Seq<char>> = if obj_lookup(o, spec_node_name(fs[0])) is Some {
            seq![spec_node_name(fs[0])]
        } else {
            Seq::empty()
        };
        head + spec_selected_names(fs.subrange(1, fs.len() as int), o)
    }
}

/// Output key order is selection order: the keys of a filtered object are
/// exactly the selected field names that exist in the source object, in
/// selection order — never in source order.
pub proof fn lemma_filter_object_key_order(fs: Seq<FiltersView>, o: Seq<(Seq<char>, JsonVal)>)
    ensures
        spec_filter_object(fs, o).map_values(|p: (Seq<char>, JsonVal)| p.0)
            == spec_selected_names(fs, o),
    decreases fs.len(),
{
    let keys = |p: (Seq<char>, JsonVal)| p.0;
    if fs.len() == 0 {
        assert(spec_filter_object(fs, o).map_values(keys) =~= spec_selected_names(fs, o));
    } else {
        let rest = fs.subrange(1, fs.len() as int);
        lemma_filter_object_key_order(rest, o);
        assert(spec_filter_object(fs, o).map_values(keys) =~= spec_selected_names(fs, o));
    }
}

/// A scalar passes through the filter unchanged, whatever the selection
/// list says.
pub proof fn lemma_scalar_unchanged(fs: Seq<FiltersView>, v: JsonVal)
    requires
        !(v is Obj),
        !(v is Arr),
    ensures
        spec_filter_value(fs, v) == v,
{
}

/// The empty selection list keeps nothing of an object and leaves a scalar
/// unchanged.
pub proof fn lemma_empty_selection(v: JsonVal)
    ensures
        v is Obj ==> spec_filter_value(Seq::empty(), v) == JsonVal::Obj(Seq::empty()),
        !(v is Obj) && !(v is Arr) ==> spec_filter_value(Seq::empty(), v) == v,
{
}

/// Filtering with the empty selection list is idempotent: a second empty
/// pass returns the first pass's result unchanged. Scalars pass through
/// both passes, and arrays keep their shape, element by element.
pub proof fn lemma_empty_filter_idempotent(v: JsonVal)
    ensures
        spec_filter_value(Seq::empty(), spec_filter_value(Seq::empty(), v)) == spec_filter_value(
            Seq::empty(),
            v,
        ),
    decreases jheight(v),
{
    let e = Seq::<FiltersView>::empty();
    match v {
        JsonVal::Arr(s) => {
            let s1 = spec_filter_array(e, s);
            lemma_filter_array_elems(e, s);
            lemma_filter_array_elems(e, s1);
            assert forall|i: int| 0 <= i < s1.len() implies #[trigger] spec_filter_array(
                e,
                s1,
            )[i] == s1[i] by {
                assert(s1[i] == spec_filter_value(e, s[i]));
                assert(spec_filter_array(e, s1)[i] == spec_filter_value(e, s1[i]));
                lemma_arr_height_elem(s, i);
                lemma_empty_filter_idempotent(s[i]);
            }
            assert(spec_filter_array(e, s1) =~= s1);
        },
        JsonVal::Obj(o) => {
            assert(spec_filter_object(e, o) == Seq::<(Seq<char>, JsonVal)>::empty());
            assert(spec_filter_object(e, Seq::<(Seq<char>, JsonVal)>::empty()) == Seq::<
                (Seq<char>, JsonVal),
            >::empty());
        },
        _ => {},
    }
}

/// The query parsed, but a field carries an argument the compiler does not
/// recognize: any name but `entries`, or `entries` with a non-boolean
/// value. The offending argument is kept for diagnosis.
#[derive(Debug, PartialEq)]
pub struct QuerySemanticError {
    pub argument: String,
    pub value: ArgValue,
}

impl View for QuerySemanticError {
    type V = (Seq<char>, ArgValue);

    /// The pair this error stands for in contracts.
    open spec fn view(&self) -> (Seq<char>, ArgValue) {
        (self.argument@, self.value)
    }
}

impl QuerySemanticError {
    /// A diagnostic line naming the offending argument.
    pub fn message(&self) -> (r: String)
        ensures
            r@ == "invalid argument "@ + self.argument@,
    {
        let mut m = "invalid argument ".to_owned();
        m.append(self.argument.as_str());
        m
    }
}

/// The argument scan for one field, over the field's argument list in
/// source order: the first argument that is not `entries`, or is `entries`
/// with a non-boolean value, is the error; `entries: true` selects the
/// entries transformation at once (later arguments are not examined);
/// `entries: false` is skipped. With no argument left, a field with
/// compiled children becomes an `Object` node, a bare field a `Field` node.
pub open spec fn spec_scan_args(
    args: Seq<(String, ArgValue)>,
    name: Seq<char>,
    sub: Seq<FiltersView>,
) -> Result<FiltersView, (Seq<char>, ArgValue)>
    decreases args.len(),
{
    if args.len() == 0 {
        Ok(
            if sub.len() > 0 {
                FiltersView::Object(name, sub)
            } else {
                FiltersView::Field(name)
            },
        )
    } else if args[0].0@ == "entries"@ {
        match args[0].1 {
            ArgValue::Boolean(b) => if b {
                Ok(FiltersView::Entries(name, sub))
            } else {
                spec_scan_args(args.subrange(1, args.len() as int), name, sub)
            },
            ArgValue::Other => Err((args[0].0@, args[0].1)),
        }
    } else {
        Err((args[0].0@, args[0].1))
    }
}

/// What compiling one field yields: its children first (an error inside
/// them comes first), then its own argument scan.
pub open spec fn spec_field_filters(f: FieldNode) -> Result<FiltersView, (Seq<char>, ArgValue)>
    decreases f,
{
    match spec_get_filters(f.selection_set) {
        Ok(sub) => spec_scan_args(f.arguments@, f.name@, sub),
        Err(e) => Err(e),
    }
}

/// What compiling a selection set yields: one node per field, in source
/// order; fragment selections are skipped; the first error anywhere in the
/// walk (depth-first, left to right) is the result.
pub open spec fn spec_get_filters(s: SelectionList) -> Result<
    Seq<FiltersView>,
    (Seq<char>, ArgValue),
>
    decreases s,
{
    spec_items_filters(s.items@)
}

pub open spec fn spec_items_filters(items: Seq<Selection>) -> Result<
    Seq<FiltersView>,
    (Seq<char>, ArgValue),
>
    decreases items,
{
    if items.len() == 0 {
        Ok(Seq::empty())
    } else {
        match items[0] {
            Selection::Field(f) => match spec_field_filters(f) {
                Ok(node) => match spec_items_filters(items.subrange(1, items.len() as int)) {
                    Ok(tail) => Ok(seq![node] + tail),
                    Err(e) => Err(e),
                },
                Err(e) => Err(e),
            },
            Selection::Fragment => spec_items_filters(items.subrange(1, items.len() as int)),
        }
    }
}

/// What compiling a whole document yields: the compiled top-level selection
/// set of the first definition when that definition is a bare selection set
/// or a `query` operation; the empty selection list when the document is
/// empty or its first definition is of any other kind.
pub open spec fn spec_get_selection(doc: QueryDoc) -> Result<
    Seq<FiltersView>,
    (Seq<char>, ArgValue),
> {
    if doc.definitions@.len() == 0 {
        Ok(Seq::empty())
    } else {
        match doc.definitions@[0] {
            QueryDefinition::SelectionSet(s) => spec_get_filters(selection_ast(s)),
            QueryDefinition::Query(s) => spec_get_filters(selection_ast(s)),
            _ => Ok(Seq::empty()),
        }
    }
}

/// Compiles a selection set into selection nodes: one node per field, in
/// source order, fragments skipped; the first unrecognized argument
/// (depth-first, left to right) is the error.
pub fn get_filters(selection: &SelectionList) -> (r: Result<Vec<Filters>, QuerySemanticError>)
    ensures
        match r {
            Ok(fs) => spec_get_filters(*selection) == Ok::<_, (Seq<char>, ArgValue)>(
                fs.deep_view(),
            ),
            Err(e) => spec_get_filters(*selection) == Err::<Seq<FiltersView>, _>(e@),
        },
    decreases *selection,
{
    let ghost itemsv = selection.items@;
    let mut out: Vec<Filters> = Vec::new();
    let mut i: usize = 0;
    proof {
        assert(itemsv.subrange(0, itemsv.len() as int) =~= itemsv);
        assert(Seq::<FiltersView>::empty() + spec_items_filters(itemsv)->Ok_0 =~=
            spec_items_filters(itemsv)->Ok_0);
    }
    while i < selection.items.len()
        invariant
            0 <= i <= selection.items.len(),
            itemsv == selection.items@,
            out@.len() <= i as int,
            spec_items_filters(itemsv) == match spec_items_filters(
                itemsv.subrange(i as int, itemsv.len() as int),
            ) {
                Ok(tail) => Ok::<_, (Seq<char>, ArgValue)>(out.deep_view() + tail),
                Err(e) => Err::<Seq<FiltersView>, _>(e),
            },
        decreases selection.items.len() - i,
    {
        let ghost rest = itemsv.subrange(i as int, itemsv.len() as int);
        proof {
            assert(rest[0] == itemsv[i as int]);
            assert(rest.subrange(1, rest.len() as int) =~= itemsv.subrange(
                i + 1 as int,
                itemsv.len() as int,
            ));
        }
        let ghost before = out.deep_view();
        match &selection.items[i] {
            Selection::Field(f) => {
                proof {
                    assert(itemsv[i as int] == Selection::Field(*f));
                }
                let sub = match get_filters(&f.selection_set) {
                    Ok(sub) => sub,
                    Err(e) => {
                        proof {
                            assert(spec_field_filters(*f) == Err::<FiltersView, _>(e@));
                            assert(spec_items_filters(rest) == Err::<Seq<FiltersView>, _>(e@));
                        }
                        return Err(e);
                    },
                };
                let node = match scan_args(f, sub) {
                    Ok(node) => node,
                    Err(e) => {
                        proof {
                            assert(spec_field_filters(*f) == Err::<FiltersView, _>(e@));
                            assert(spec_items_filters(rest) == Err::<Seq<FiltersView>, _>(e@));
                        }
                        return Err(e);
                    },
                };
                let ghost nodev = node.deep_view();
                out.push(node);
                proof {
                    assert(out.deep_view() =~= before.push(nodev));
                    assert(before.push(nodev) =~= before + seq![nodev]);
                    let tailr = spec_items_filters(rest.subrange(1, rest.len() as int));
                    if tailr is Ok {
                        let tail = tailr->Ok_0;
                        assert((before + seq![nodev]) + tail =~= before + (seq![nodev] + tail));
                    }
                }
            },
            Selection::Fragment => {},
        }
        i = i + 1;
    }
    proof {
        assert(itemsv.subrange(i as int, itemsv.len() as int) =~= Seq::<Selection>::empty());
        assert(out.deep_view() + Seq::<FiltersView>::empty() =~= out.deep_view());
    }
    Ok(out)
}

/// The executable argument scan for one field, applied to the already
/// compiled children.
fn scan_args(f: &FieldNode, sub: Vec<Filters>) -> (r: Result<Filters, QuerySemanticError>)
    ensures
        match r {
            Ok(node) => spec_scan_args(f.arguments@, f.name@, sub.deep_view()) == Ok::<
                _,
                (Seq<char>, ArgValue),
            >(node.deep_view()),
            Err(e) => spec_scan_args(f.arguments@, f.name@, sub.deep_view()) == Err::<
                FiltersView,
                _,
            >(e@),
        },
{
    let ghost argsv = f.arguments@;
    let ghost subv = sub.deep_view();
    let entries_name = "entries".to_owned();
    let mut j: usize = 0;
    proof {
        assert(argsv.subrange(0, argsv.len() as int) =~= argsv);
    }
    while j < f.arguments.len()
        invariant
            0 <= j <= f.arguments.len(),
            argsv == f.arguments@,
            subv == sub.deep_view(),
            entries_name@ == "entries"@,
            spec_scan_args(argsv, f.name@, subv) == spec_scan_args(
                argsv.subrange(j as int, argsv.len() as int),
                f.name@,
                subv,
            ),
        decreases f.arguments.len() - j,
    {
        let ghost rest = argsv.subrange(j as int, argsv.len() as int);
        proof {
            assert(rest[0] == argsv[j as int]);
            assert(rest.subrange(1, rest.len() as int) =~= argsv.subrange(
                j + 1 as int,
                argsv.len() as int,
            ));
        }
        if f.arguments[j].0 == entries_name {
            match f.arguments[j].1 {
                ArgValue::Boolean(b) => {
                    if b {
                        let node = Filters::Entries(f.name.clone(), sub);
                        proof {
                            lemma_filters_entries_view(node->Entries_0, node->Entries_1);
                        }
                        return Ok(node);
                    }
                },
                ArgValue::Other => {
                    return Err(
                        QuerySemanticError {
                            argument: f.arguments[j].0.clone(),
                            value: f.arguments[j].1,
                        },
                    );
                },
            }
        } else {
            return Err(
                QuerySemanticError {
                    argument: f.arguments[j].0.clone(),
                    value: f.arguments[j].1,
                },
            );
        }
        j = j + 1;
    }
    proof {
        assert(argsv.subrange(j as int, argsv.len() as int) =~= Seq::<(String, ArgValue)>::empty());
    }
    if sub.len() > 0 {
        let node = Filters::Object(f.name.clone(), sub);
        proof {
            lemma_filters_object_view(node->Object_0, node->Object_1);
        }
        Ok(node)
    } else {
        Ok(Filters::Field(f.name.clone()))
    }
}

/// Compiles a parsed query document: the compiled top-level selection set
/// of the first definition when it is a bare selection set or a `query`
/// operation, the empty selection list otherwise.
pub fn get_selection(ast: &QueryDoc) -> (r: Result<Vec<Filters>, QuerySemanticError>)
    ensures
        match r {
            Ok(fs) => spec_get_selection(*ast) == Ok::<_, (Seq<char>, ArgValue)>(fs.deep_view()),
            Err(e) => spec_get_selection(*ast) == Err::<Seq<FiltersView>, _>(e@),
        },
{
    if ast.definitions.len() == 0 {
        let out: Vec<Filters> = Vec::new();
        proof {
            assert(out.deep_view() =~= Seq::<FiltersView>::empty());
        }
        return Ok(out);
    }
    match &ast.definitions[0] {
        QueryDefinition::SelectionSet(s) => {
            let m = ast_of_selection_set(s);
            get_filters(&m)
        },
        QueryDefinition::Query(s) => {
            let m = ast_of_selection_set(s);
            get_filters(&m)
        },
        _ => {
            let out: Vec<Filters> = Vec::new();
            proof {
                assert(out.deep_view() =~= Seq::<FiltersView>::empty());
            }
            Ok(out)
        },
    }
}

} // verus!
