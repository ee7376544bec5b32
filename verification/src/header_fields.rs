//! Header handling of the client: reading a header map into the plain
//! (name, value) fields sent to the host, and writing pairs or fields into a
//! header map. The proof functions state the laws these operations obey.
use vstd::prelude::*;
use http::header::{HeaderMap, HeaderName, HeaderValue};
use crate::http_types::{
    ascii_chars, header_map_insert, header_map_insert_limit, header_map_keys, header_map_new,
    header_map_try_insert, header_map_view, keys_after_insert, keys_match,
    header_name_as_str, header_name_from_string, header_value_from_bytes, header_value_to_str,
    is_valid_header_name, is_valid_header_value, is_visible_text, lowercase_bytes, no_headers,
    pairs_agree, pairs_bytes, values_for,
};

verus! {

/// The plain view of a list of fields: name text and value bytes.
pub open spec fn fields_view(fields: Seq<(String, Vec<u8>)>) -> Seq<(Seq<char>, Seq<u8>)> {
    fields.map_values(|f: (String, Vec<u8>)| (f.0@, f.1@))
}

/// The fields sent for a list of header pairs: the pairs whose value is
/// visible ASCII text, in their order, with the name as text.
pub open spec fn visible_fields(items: Seq<(Seq<u8>, Seq<u8>)>) -> Seq<(Seq<char>, Seq<u8>)>
    decreases items.len(),
{
    if items.len() == 0 {
        Seq::empty()
    } else {
        let rest = visible_fields(items.drop_last());
        let p = items.last();
        if is_visible_text(p.1) {
            rest.push((ascii_chars(p.0), p.1))
        } else {
            rest
        }
    }
}

/// The map that results from inserting the pairs one after the other.
pub open spec fn apply_inserts(
    m: Map<Seq<u8>, Seq<Seq<u8>>>,
    items: Seq<(Seq<u8>, Seq<u8>)>,
) -> Map<Seq<u8>, Seq<Seq<u8>>>
    decreases items.len(),
{
    if items.len() == 0 {
        m
    } else {
        apply_inserts(m, items.drop_last()).insert(items.last().0, seq![items.last().1])
    }
}

/// The map's names after inserting the pairs one after the other: each name
/// not yet there goes last.
pub open spec fn apply_keys(keys: Seq<Seq<u8>>, items: Seq<(Seq<u8>, Seq<u8>)>) -> Seq<Seq<u8>>
    decreases items.len(),
{
    if items.len() == 0 {
        keys
    } else {
        let k = apply_keys(keys, items.drop_last());
        if k.contains(items.last().0) {
            k
        } else {
            k.push(items.last().0)
        }
    }
}

/// Inserting into a map whose names list matches it gives the names that
/// `apply_keys` gives, and they match the new map.
pub proof fn lemma_keys_after_insert(
    keys: Seq<Seq<u8>>,
    m: Map<Seq<u8>, Seq<Seq<u8>>>,
    name: Seq<u8>,
    v: Seq<Seq<u8>>,
)
    requires
        keys_match(keys, m),
    ensures
        keys_after_insert(keys, m, name) == (if keys.contains(name) {
            keys
        } else {
            keys.push(name)
        }),
        keys_match(keys_after_insert(keys, m, name), m.insert(name, v)),
{
    let nk = keys_after_insert(keys, m, name);
    if !keys.contains(name) {
        assert forall|i: int, j: int| 0 <= i < nk.len() && 0 <= j < nk.len() && i != j implies nk[i] != nk[j] by {
            if i == keys.len() as int {
                assert(keys.contains(nk[j]));
            } else if j == keys.len() as int {
                assert(keys.contains(nk[i]));
            }
        }
        assert forall|k: Seq<u8>| #[trigger] nk.contains(k) <==> m.insert(name, v).dom().contains(k) by {
            if nk.contains(k) && k != name {
                let i = choose|i: int| 0 <= i < nk.len() && nk[i] == k;
                assert(keys[i] == k);
            }
            if keys.contains(k) {
                let i = choose|i: int| 0 <= i < keys.len() && keys[i] == k;
                assert(nk[i] == k);
            }
            if k == name {
                assert(nk[keys.len() as int] == name);
            }
        }
    }
}

/// The names that the pairs carry.
pub open spec fn pair_names(items: Seq<(Seq<u8>, Seq<u8>)>) -> Set<Seq<u8>>
    decreases items.len(),
{
    if items.len() == 0 {
        Set::empty()
    } else {
        pair_names(items.drop_last()).insert(items.last().0)
    }
}

/// `base` overlaid with `src`, where each name of `src` keeps only its last
/// value.
pub open spec fn keep_last(
    base: Map<Seq<u8>, Seq<Seq<u8>>>,
    src: Map<Seq<u8>, Seq<Seq<u8>>>,
) -> Map<Seq<u8>, Seq<Seq<u8>>> {
    Map::new(
        |k: Seq<u8>| base.dom().contains(k) || src.dom().contains(k),
        |k: Seq<u8>|
            if src.dom().contains(k) {
                seq![src[k].last()]
            } else {
                base[k]
            },
    )
}

/// The pairs that a list of fields stands for once each name is parsed as a
/// header name.
pub open spec fn fields_as_pairs(fields: Seq<(Seq<char>, Seq<u8>)>) -> Seq<(Seq<u8>, Seq<u8>)> {
    fields.map_values(
        |f: (Seq<char>, Seq<u8>)| (lowercase_bytes(vstd::utf8::encode_utf8(f.0)), f.1),
    )
}

/// Every field has a valid header name and a valid header value.
pub open spec fn fields_are_valid(fields: Seq<(Seq<char>, Seq<u8>)>) -> bool {
    forall|i: int|
        0 <= i < fields.len() ==> is_valid_header_name(vstd::utf8::encode_utf8(#[trigger] fields[i].0))
            && is_valid_header_value(fields[i].1)
}

pub proof fn lemma_pair_names_finite(items: Seq<(Seq<u8>, Seq<u8>)>)
    ensures
        pair_names(items).finite(),
        pair_names(items).len() <= items.len(),
    decreases items.len(),
{
    if items.len() > 0 {
        lemma_pair_names_finite(items.drop_last());
    }
}

pub proof fn lemma_pair_names_contains(items: Seq<(Seq<u8>, Seq<u8>)>, k: Seq<u8>)
    ensures
        pair_names(items).contains(k) <==> values_for(items, k).len() > 0,
        pair_names(items).contains(k) <==> exists|i: int| 0 <= i < items.len() && #[trigger] items[i].0 == k,
    decreases items.len(),
{
    if items.len() > 0 {
        let init = items.drop_last();
        lemma_pair_names_contains(init, k);
        if pair_names(init).contains(k) {
            let i = choose|i: int| 0 <= i < init.len() && #[trigger] init[i].0 == k;
            assert(items[i].0 == k);
        }
        if exists|i: int| 0 <= i < items.len() && #[trigger] items[i].0 == k {
            let i = choose|i: int| 0 <= i < items.len() && #[trigger] items[i].0 == k;
            if i < items.len() - 1 {
                assert(init[i].0 == k);
            }
        }
    }
}

/// The names carried by the first pairs are among the names of all pairs.
pub proof fn lemma_pair_names_prefix(items: Seq<(Seq<u8>, Seq<u8>)>, j: int)
    requires
        0 <= j <= items.len(),
    ensures
        pair_names(items.take(j)).subset_of(pair_names(items)),
{
    assert forall|k: Seq<u8>| pair_names(items.take(j)).contains(k) implies pair_names(items).contains(k) by {
        lemma_pair_names_contains(items.take(j), k);
        lemma_pair_names_contains(items, k);
        let i = choose|i: int| 0 <= i < items.take(j).len() && #[trigger] items.take(j)[i].0 == k;
        assert(items[i].0 == k);
    }
}

/// Inserting pairs one by one: a name gets the last value that the pairs
/// carry for it, and a name that no pair carries keeps what it had.
pub proof fn lemma_apply_inserts_entry(
    base: Map<Seq<u8>, Seq<Seq<u8>>>,
    items: Seq<(Seq<u8>, Seq<u8>)>,
    k: Seq<u8>,
)
    ensures
        apply_inserts(base, items).dom().contains(k) <==> (base.dom().contains(k) || values_for(
            items,
            k,
        ).len() > 0),
        values_for(items, k).len() > 0 ==> apply_inserts(base, items)[k] == seq![
            values_for(items, k).last(),
        ],
        values_for(items, k).len() == 0 ==> apply_inserts(base, items)[k] == base[k],
    decreases items.len(),
{
    if items.len() > 0 {
        lemma_apply_inserts_entry(base, items.drop_last(), k);
    }
}

/// The names of the map after the insertions are those it had and those the
/// pairs carry.
pub proof fn lemma_apply_inserts_dom(base: Map<Seq<u8>, Seq<Seq<u8>>>, items: Seq<(Seq<u8>, Seq<u8>)>)
    ensures
        apply_inserts(base, items).dom() == base.dom().union(pair_names(items)),
    decreases items.len(),
{
    if items.len() > 0 {
        lemma_apply_inserts_dom(base, items.drop_last());
    }
    assert(apply_inserts(base, items).dom() =~= base.dom().union(pair_names(items)));
}

/// Inserting every pair of a map into `base` gives `base` overlaid with that
/// map, each of its names keeping its last value.
pub proof fn lemma_inserting_pairs_keeps_last(
    base: Map<Seq<u8>, Seq<Seq<u8>>>,
    items: Seq<(Seq<u8>, Seq<u8>)>,
    src: Map<Seq<u8>, Seq<Seq<u8>>>,
)
    requires
        pairs_agree(items, src),
    ensures
        apply_inserts(base, items) == keep_last(base, src),
        pair_names(items) == src.dom(),
{
    assert forall|k: Seq<u8>| pair_names(items).contains(k) <==> src.dom().contains(k) by {
        lemma_pair_names_contains(items, k);
        if pair_names(items).contains(k) {
            let i = choose|i: int| 0 <= i < items.len() && #[trigger] items[i].0 == k;
            assert(src.dom().contains(items[i].0));
        }
    }
    assert(pair_names(items) =~= src.dom());
    assert forall|k: Seq<u8>| #[trigger] apply_inserts(base, items).dom().contains(k) <==> keep_last(base, src).dom().contains(k) by {
        lemma_apply_inserts_entry(base, items, k);
        lemma_pair_names_contains(items, k);
    }
    assert forall|k: Seq<u8>| #[trigger] apply_inserts(base, items).dom().contains(k) implies apply_inserts(base, items)[k] == keep_last(base, src)[k] by {
        lemma_apply_inserts_entry(base, items, k);
        lemma_pair_names_contains(items, k);
    }
    assert(apply_inserts(base, items) =~= keep_last(base, src));
}

/// A pair is sent as a field exactly when every byte of its value is a tab
/// or a visible ASCII byte (32 through 126, the space included); a sent
/// field keeps the pair's value bytes unchanged and its name as text, and
/// the fields keep the pairs' order.
pub proof fn lemma_visible_fields_keep_text_values(items: Seq<(Seq<u8>, Seq<u8>)>, p: (Seq<u8>, Seq<u8>))
    ensures
        visible_fields(Seq::empty()) == Seq::<(Seq<char>, Seq<u8>)>::empty(),
        (forall|j: int| 0 <= j < p.1.len() ==> (p.1[j] == 9 || (32 <= p.1[j] && p.1[j] <= 126)))
            ==> visible_fields(items.push(p)) == visible_fields(items).push((ascii_chars(p.0), p.1)),
        (exists|j: int| 0 <= j < p.1.len() && !(p.1[j] == 9 || (32 <= p.1[j] && p.1[j] <= 126)))
            ==> visible_fields(items.push(p)) == visible_fields(items),
{
    assert(items.push(p).drop_last() =~= items);
    assert(items.push(p).last() == p);
}

/// The values that pairs hold under a name end with the value of the last
/// pair carrying that name.
pub proof fn lemma_values_for_last(items: Seq<(Seq<u8>, Seq<u8>)>, j: int)
    requires
        0 <= j < items.len(),
        forall|i: int| j < i < items.len() ==> items[i].0 != items[j].0,
    ensures
        values_for(items, items[j].0).len() > 0,
        values_for(items, items[j].0).last() == items[j].1,
    decreases items.len(),
{
    if j < items.len() - 1 {
        let init = items.drop_last();
        assert(init[j] == items[j]);
        assert forall|i: int| j < i < init.len() implies init[i].0 != init[j].0 by {
            assert(init[i] == items[i]);
        }
        lemma_values_for_last(init, j);
        assert(items.last().0 != items[j].0);
    }
}

/// Reading fields into a header map keeps each value byte for byte: the map
/// holds under the lower-cased name of a field exactly the value of the last
/// field with that lower-cased name, and holds no name that no field
/// carries.
pub proof fn lemma_fields_map_keeps_values(fields: Seq<(Seq<char>, Seq<u8>)>, j: int, other: Seq<u8>)
    requires
        0 <= j < fields.len(),
        forall|i: int| j < i < fields.len() ==> lowercase_bytes(vstd::utf8::encode_utf8(#[trigger] fields[i].0))
            != lowercase_bytes(vstd::utf8::encode_utf8(fields[j].0)),
    ensures
        apply_inserts(no_headers(), fields_as_pairs(fields)).dom().contains(
            lowercase_bytes(vstd::utf8::encode_utf8(fields[j].0)),
        ),
        apply_inserts(no_headers(), fields_as_pairs(fields))[lowercase_bytes(vstd::utf8::encode_utf8(fields[j].0))]
            == seq![fields[j].1],
        (forall|i: int| 0 <= i < fields.len() ==> lowercase_bytes(vstd::utf8::encode_utf8(#[trigger] fields[i].0))
            != other) ==> !apply_inserts(no_headers(), fields_as_pairs(fields)).dom().contains(other),
{
    let pairs = fields_as_pairs(fields);
    let k = lowercase_bytes(vstd::utf8::encode_utf8(fields[j].0));
    assert(pairs[j] == (k, fields[j].1));
    assert forall|i: int| j < i < pairs.len() implies pairs[i].0 != pairs[j].0 by {
        assert(pairs[i].0 == lowercase_bytes(vstd::utf8::encode_utf8(fields[i].0)));
    }
    lemma_values_for_last(pairs, j);
    lemma_apply_inserts_entry(no_headers(), pairs, k);
    lemma_apply_inserts_entry(no_headers(), pairs, other);
    lemma_pair_names_contains(pairs, other);
    if forall|i: int| 0 <= i < fields.len() ==> lowercase_bytes(vstd::utf8::encode_utf8(#[trigger] fields[i].0)) != other {
        if exists|i: int| 0 <= i < pairs.len() && #[trigger] pairs[i].0 == other {
            let i = choose|i: int| 0 <= i < pairs.len() && #[trigger] pairs[i].0 == other;
            assert(pairs[i].0 == lowercase_bytes(vstd::utf8::encode_utf8(fields[i].0)));
        }
    }
}

/// Appends to `fields` the pairs whose value is visible ASCII text, as
/// (name text, value bytes), keeping their order.
pub fn push_visible_fields(fields: &mut Vec<(String, Vec<u8>)>, items: &Vec<(HeaderName, HeaderValue)>)
    ensures
        fields_view(final(fields)@) == fields_view(old(fields)@) + visible_fields(pairs_bytes(items@)),
{
    let ghost start = fields_view(fields@);
    let n: usize = items.len();
    for i in 0..n
        invariant
            n == items.len(),
            fields_view(fields@) == start + visible_fields(pairs_bytes(items@).take(i as int)),
    {
        let ghost all = pairs_bytes(items@);
        assert(all.take(i + 1).drop_last() =~= all.take(i as int));
        let ghost old_fields = fields@;
        let name = &items[i].0;
        let value = &items[i].1;
        match header_value_to_str(value) {
            Some(text) => {
                let name_text = header_name_as_str(name);
                let bytes = vstd::slice::slice_to_vec(text.as_bytes());
                let owned = name_text.to_owned();
                fields.push((owned, bytes));
                assert(all[i as int] == (
                    crate::http_types::header_name_bytes(items@[i as int].0),
                    crate::http_types::header_value_bytes(items@[i as int].1),
                ));
                assert(all.take(i + 1).last() == all[i as int]);
                assert(bytes@ == all[i as int].1);
                assert(owned@ == ascii_chars(all[i as int].0));
                assert(fields_view(fields@) =~= fields_view(old_fields) + seq![(owned@, bytes@)]);
                assert(fields_view(fields@) =~= start + visible_fields(all.take(i + 1)));
            },
            None => {
                assert(fields_view(fields@) =~= start + visible_fields(all.take(i + 1)));
            },
        }
    }
    assert(pairs_bytes(items@).take(n as int) =~= pairs_bytes(items@));
}

/// Inserts the pairs into `target` one after the other.
pub fn insert_pairs(target: &mut HeaderMap, items: Vec<(HeaderName, HeaderValue)>)
    requires
        header_map_view(*old(target)).dom().finite(),
        header_map_view(*old(target)).dom().union(pair_names(pairs_bytes(items@))).len()
            <= header_map_insert_limit(),
        keys_match(header_map_keys(*old(target)), header_map_view(*old(target))),
    ensures
        header_map_view(*final(target)) == apply_inserts(header_map_view(*old(target)), pairs_bytes(items@)),
        header_map_keys(*final(target)) == apply_keys(header_map_keys(*old(target)), pairs_bytes(items@)),
        keys_match(header_map_keys(*final(target)), header_map_view(*final(target))),
{
    let ghost base = header_map_view(*target);
    let ghost base_keys = header_map_keys(*target);
    let ghost all = pairs_bytes(items@);
    proof {
        lemma_pair_names_finite(all);
    }
    let mut items = items;
    let ghost orig = items@;
    let n: usize = items.len();
    let mut rest: Vec<(HeaderName, HeaderValue)> = Vec::new();
    // Take the pairs out from the back, then insert them from the front.
    while items.len() > 0
        invariant
            orig == items@ + rest@.reverse(),
        decreases items.len(),
    {
        let p = items.pop().unwrap();
        rest.push(p);
        assert(orig =~= items@ + rest@.reverse());
    }
    assert(rest@.reverse() =~= orig);
    let mut i: usize = 0;
    while rest.len() > 0
        invariant
            i + rest.len() == n,
            n == orig.len(),
            all == pairs_bytes(orig),
            rest@.reverse() =~= orig.skip(i as int),
            base.dom().finite(),
            base.dom().union(pair_names(all)).len() <= header_map_insert_limit(),
            pair_names(all).finite(),
            header_map_view(*target) == apply_inserts(base, all.take(i as int)),
            header_map_keys(*target) == apply_keys(base_keys, all.take(i as int)),
            keys_match(header_map_keys(*target), header_map_view(*target)),
        decreases rest.len(),
    {
        let ghost before = rest@;
        let p = rest.pop().unwrap();
        assert(rest@.reverse() =~= before.reverse().drop_first());
        assert(p == orig[i as int]) by {
            assert(orig.skip(i as int)[0] == orig[i as int]);
        }
        proof {
            lemma_apply_inserts_dom(base, all.take(i as int));
            lemma_apply_inserts_dom(base, all.take(i + 1));
            assert(all.take(i + 1).drop_last() =~= all.take(i as int));
            lemma_pair_names_finite(all.take(i + 1));
            assert forall|k: Seq<u8>| pair_names(all.take(i + 1)).contains(k) implies pair_names(all).contains(k) by {
                lemma_pair_names_contains(all.take(i + 1), k);
                lemma_pair_names_contains(all, k);
                let j = choose|j: int| 0 <= j < all.take(i + 1).len() && #[trigger] all.take(i + 1)[j].0 == k;
                assert(all[j].0 == k);
            }
            assert(base.dom().union(pair_names(all.take(i + 1))).subset_of(base.dom().union(pair_names(all))));
            vstd::set_lib::lemma_len_subset(
                base.dom().union(pair_names(all.take(i + 1))),
                base.dom().union(pair_names(all)),
            );
            vstd::set_lib::lemma_len_subset(
                base.dom().union(pair_names(all.take(i as int))),
                base.dom().union(pair_names(all.take(i + 1))),
            );
        }
        proof {
            lemma_keys_after_insert(
                header_map_keys(*target),
                header_map_view(*target),
                crate::http_types::header_name_bytes(p.0),
                seq![crate::http_types::header_value_bytes(p.1)],
            );
            assert(all[i as int] == (crate::http_types::header_name_bytes(p.0), crate::http_types::header_value_bytes(p.1)));
        }
        header_map_insert(target, p.0, p.1);
        i = i + 1;
        proof {
            assert(all.take(i as int).drop_last() =~= all.take(i - 1));
            assert(rest@.reverse() =~= orig.skip(i as int));
        }
    }
    assert(all.take(n as int) =~= all);
}

/// The header map that a list of (name, value) fields stands for: each name
/// parsed as a header name (lower-cased) and each value kept as its bytes;
/// a name given more than once keeps its last value.
pub fn fields_to_header_map(fields: &Vec<(String, Vec<u8>)>) -> (m: HeaderMap)
    requires
        fields_are_valid(fields_view(fields@)),
        pair_names(fields_as_pairs(fields_view(fields@))).len() <= header_map_insert_limit(),
    ensures
        header_map_view(m) == apply_inserts(no_headers(), fields_as_pairs(fields_view(fields@))),
{
    let ghost all = fields_as_pairs(fields_view(fields@));
    proof {
        lemma_pair_names_finite(all);
    }
    let mut m = header_map_new();
    let n: usize = fields.len();
    for i in 0..n
        invariant
            n == fields.len(),
            all == fields_as_pairs(fields_view(fields@)),
            pair_names(all).finite(),
            pair_names(all).len() <= header_map_insert_limit(),
            fields_are_valid(fields_view(fields@)),
            header_map_view(m) == apply_inserts(no_headers(), all.take(i as int)),
    {
        proof {
            lemma_apply_inserts_dom(no_headers(), all.take(i as int));
            lemma_pair_names_finite(all.take(i as int));
            assert(no_headers().dom().union(pair_names(all.take(i as int))) =~= pair_names(all.take(i as int)));
            assert(all.take(i + 1).drop_last() =~= all.take(i as int));
            lemma_pair_names_prefix(all, i as int);
            vstd::set_lib::lemma_len_subset(pair_names(all.take(i as int)), pair_names(all));
            assert(fields_view(fields@)[i as int] == (fields@[i as int].0@, fields@[i as int].1@));
            assert(is_valid_header_name(vstd::utf8::encode_utf8(fields_view(fields@)[i as int].0)));
            assert(is_valid_header_value(fields_view(fields@)[i as int].1));
            assert(all[i as int] == (lowercase_bytes(vstd::utf8::encode_utf8(fields@[i as int].0@)), fields@[i as int].1@));
        }
        let name = header_name_from_string(&fields[i].0);
        let value = header_value_from_bytes(fields[i].1.as_slice());
        match (name, value) {
            (Some(name), Some(value)) => {
                header_map_insert(&mut m, name, value);
            },
            _ => {
                assert(false);
            },
        }
    }
    assert(all.take(n as int) =~= all);
    m
}

/// Why a list of fields cannot be read into a header map.
#[derive(Debug, Clone, Copy, PartialEq, Eq, Structural)]
pub enum FieldProblem {
    /// A field's name is not a valid header name.
    InvalidName,
    /// A field's value is not a valid header value.
    InvalidValue,
    /// The map reached its maximal capacity.
    TooManyNames,
}

/// The first field, in order, with an invalid name, or else an invalid
/// value.
pub open spec fn fields_problem(fields: Seq<(Seq<char>, Seq<u8>)>) -> Option<FieldProblem>
    decreases fields.len(),
{
    if fields.len() == 0 {
        None
    } else {
        match fields_problem(fields.drop_last()) {
            Some(p) => Some(p),
            None => {
                let f = fields.last();
                if !is_valid_header_name(vstd::utf8::encode_utf8(f.0)) {
                    Some(FieldProblem::InvalidName)
                } else if !is_valid_header_value(f.1) {
                    Some(FieldProblem::InvalidValue)
                } else {
                    None
                }
            },
        }
    }
}

/// A problem met among the first fields is the first problem of them all.
pub proof fn lemma_fields_problem_prefix(fields: Seq<(Seq<char>, Seq<u8>)>, j: int)
    requires
        0 <= j <= fields.len(),
        fields_problem(fields.take(j)) is Some,
    ensures
        fields_problem(fields) == fields_problem(fields.take(j)),
    decreases fields.len(),
{
    if j < fields.len() {
        assert(fields.drop_last().take(j) =~= fields.take(j));
        lemma_fields_problem_prefix(fields.drop_last(), j);
    } else {
        assert(fields.take(j) =~= fields);
    }
}

/// Fields have no problem exactly when all of them are valid.
pub proof fn lemma_fields_problem_none(fields: Seq<(Seq<char>, Seq<u8>)>)
    ensures
        fields_problem(fields) is None <==> fields_are_valid(fields),
    decreases fields.len(),
{
    if fields.len() > 0 {
        let init = fields.drop_last();
        lemma_fields_problem_none(init);
        assert(fields.last() == fields[fields.len() - 1]);
        if fields_are_valid(fields) {
            assert forall|i: int| 0 <= i < init.len() implies is_valid_header_name(
                vstd::utf8::encode_utf8(#[trigger] init[i].0),
            ) && is_valid_header_value(init[i].1) by {
                assert(init[i] == fields[i]);
            }
            assert(is_valid_header_name(vstd::utf8::encode_utf8(fields[fields.len() - 1].0)));
        }
        if fields_problem(fields) is None {
            assert(fields_problem(init) is None);
            assert(fields_are_valid(init));
            assert forall|i: int| 0 <= i < fields.len() implies is_valid_header_name(
                vstd::utf8::encode_utf8(#[trigger] fields[i].0),
            ) && is_valid_header_value(fields[i].1) by {
                if i < init.len() {
                    assert(init[i] == fields[i]);
                    assert(is_valid_header_name(vstd::utf8::encode_utf8(init[i].0)));
                } else {
                    assert(fields[i] == fields.last());
                }
            }
        }
    }
}

/// The header map that a list of (name, value) fields stands for, as
/// `fields_to_header_map` builds it, or why it cannot be built: the first
/// field with an invalid name or value, or a map that reached its maximal
/// capacity before it. With at most `header_map_insert_limit()` distinct
/// names the capacity is never reached; past that it depends on how the
/// names hash.
pub fn try_fields_to_header_map(fields: &Vec<(String, Vec<u8>)>) -> (r: Result<HeaderMap, FieldProblem>)
    ensures
        r matches Ok(m) ==> fields_problem(fields_view(fields@)) is None && header_map_view(m)
            == apply_inserts(no_headers(), fields_as_pairs(fields_view(fields@))),
        r matches Err(p) ==> (p != FieldProblem::TooManyNames ==> fields_problem(fields_view(fields@))
            == Some(p)),
        r == Err::<HeaderMap, FieldProblem>(FieldProblem::TooManyNames) ==> exists|i: int|
            0 <= i < fields@.len() && fields_problem(fields_view(fields@).take(i + 1)) is None
                && #[trigger] pair_names(fields_as_pairs(fields_view(fields@)).take(i)).len()
                > header_map_insert_limit(),
        fields_problem(fields_view(fields@)) matches Some(p) ==> (pair_names(
            fields_as_pairs(fields_view(fields@)),
        ).len() <= header_map_insert_limit() ==> r == Err::<HeaderMap, FieldProblem>(p)),
        fields_problem(fields_view(fields@)) is None && pair_names(fields_as_pairs(fields_view(fields@))).len()
            <= header_map_insert_limit() ==> r is Ok,
{
    let ghost view = fields_view(fields@);
    let ghost all = fields_as_pairs(view);
    proof {
        lemma_pair_names_finite(all);
    }
    let mut m = header_map_new();
    let n: usize = fields.len();
    for i in 0..n
        invariant
            n == fields.len(),
            view == fields_view(fields@),
            all == fields_as_pairs(view),
            pair_names(all).finite(),
            fields_problem(view.take(i as int)) is None,
            header_map_view(m) == apply_inserts(no_headers(), all.take(i as int)),
    {
        let ghost prefix = view.take(i + 1);
        proof {
            lemma_apply_inserts_dom(no_headers(), all.take(i as int));
            lemma_pair_names_finite(all.take(i as int));
            assert(no_headers().dom().union(pair_names(all.take(i as int))) =~= pair_names(all.take(i as int)));
            assert(all.take(i + 1).drop_last() =~= all.take(i as int));
            assert(prefix.drop_last() =~= view.take(i as int));
            assert(fields_as_pairs(view.take(i as int)) =~= all.take(i as int));
            assert(prefix.last() == (fields@[i as int].0@, fields@[i as int].1@));
            assert(all[i as int] == (lowercase_bytes(vstd::utf8::encode_utf8(fields@[i as int].0@)), fields@[i as int].1@));
            lemma_pair_names_prefix(all, i as int);
            vstd::set_lib::lemma_len_subset(pair_names(all.take(i as int)), pair_names(all));
        }
        let name = header_name_from_string(&fields[i].0);
        let name = match name {
            Some(name) => name,
            None => {
                proof {
                    lemma_fields_problem_prefix(view, i + 1);
                }
                return Err(FieldProblem::InvalidName);
            },
        };
        let value = header_value_from_bytes(fields[i].1.as_slice());
        let value = match value {
            Some(value) => value,
            None => {
                proof {
                    lemma_fields_problem_prefix(view, i + 1);
                }
                return Err(FieldProblem::InvalidValue);
            },
        };
        if !header_map_try_insert(&mut m, name, value) {
            proof {
                assert(fields_problem(view.take(i + 1)) is None);
                assert(pair_names(all.take(i as int)).len() > header_map_insert_limit());
                if fields_problem(view) is Some {
                    lemma_fields_problem_none(view);
                    lemma_fields_problem_none(view.take(i + 1));
                }
            }
            return Err(FieldProblem::TooManyNames);
        }
    }
    assert(all.take(n as int) =~= all);
    assert(view.take(n as int) =~= view);
    Ok(m)
}

} // verus!
