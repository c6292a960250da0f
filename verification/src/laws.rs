//! Properties that hold across the operations of the library: what a read
//! gives back of a write, what a conversion undoes, what a check accepts.

use crate::error::{err_view, AfbErrorView};
use crate::jsonc::{
    esc_char, escape_text, first_err, first_err_at, items_text, jtype_of, lemma_first_err_found, member_text, members_text,
    type_mismatch, JobjectView, Jobject,
    array_checks, contains_checks, contains_spec, equal_spec, first_key_at, full_checks, items_at, items_put,
    json_text, jval_member, key_pos, lemma_first_err_none, lemma_key_pos_absent, lemma_key_pos_found,
    members_set, partial_checks, slot_uid, Jequal, JsonImport, JsoncExport, JsoncObj, Jval,
};
use crate::hexa::{
    all_hex, digits_value, hex_byte, hex_digit_value, hexa_bytes, hexa_items, hexa_pieces,
    hexa_stop_at, hexa_text, is_hex_digit, lemma_split_nonempty, split_commas,
};
use crate::log::{abs_level, level_bit, level_of_syslog, syslog_of, AfbLogLevel};
use crate::permission::{auth_base, auth_merge, AfbAuthV4, AfbPermission, ToPermission};
use crate::registry::{lemma_run_status_last, run_status};
use crate::tap::{
    arg_diag, arg_diags, check_spec, first_diag, first_diag_at, group_report, printable_report, suite_members, AfbTapGroup,
    AfbTapTest,
};
use crate::data::{AFB_FAIL, AFB_OK};
use crate::text::{byte_hex, hex_char, int_text, nat_text, padded_upper_hex, upper_hex_char, upper_hex_text};
use vstd::prelude::*;

verus! {

/// A member named `key` at `j` makes `key_pos` find one.
proof fn lemma_key_pos_some(es: Seq<(Seq<char>, Jval)>, key: Seq<char>, j: int)
    requires
        0 <= j < es.len(),
        es[j].0 == key,
    ensures
        key_pos(es, key) is Some,
    decreases j,
{
    if forall|m: int| 0 <= m < j ==> es[m].0 != key {
        assert(first_key_at(es, key, j));
    } else {
        let m = choose|m: int| 0 <= m < j && es[m].0 == key;
        lemma_key_pos_some(es, key, m);
    }
}

/// After member `key` of an object is set to `val`, reading `key` gives
/// `val`.
pub proof fn law_member_read_after_set(es: Seq<(Seq<char>, Jval)>, key: Seq<char>, val: Jval)
    ensures
        jval_member(Jval::Object(members_set(es, key, val)), key) == Some(val),
{
    let ns = members_set(es, key, val);
    match key_pos(es, key) {
        Some(i) => {
            assert(first_key_at(es, key, i));
            assert(first_key_at(ns, key, i));
            lemma_key_pos_found(ns, key, i);
        },
        None => {
            assert forall|j: int| 0 <= j < es.len() implies es[j].0 != key by {
                if es[j].0 == key {
                    lemma_key_pos_some(es, key, j);
                }
            }
            assert(first_key_at(ns, key, es.len() as int));
            lemma_key_pos_found(ns, key, es.len() as int);
        },
    }
}

/// Setting member `key` leaves every other member as it was.
pub proof fn law_member_set_keeps_others(es: Seq<(Seq<char>, Jval)>, key: Seq<char>, val: Jval, other: Seq<char>)
    requires
        other != key,
    ensures
        jval_member(Jval::Object(members_set(es, key, val)), other) == jval_member(Jval::Object(es), other),
{
    let ns = members_set(es, key, val);
    match key_pos(es, other) {
        Some(i) => {
            assert(first_key_at(es, other, i));
            assert(first_key_at(ns, other, i));
            lemma_key_pos_found(ns, other, i);
        },
        None => {
            assert forall|j: int| 0 <= j < es.len() implies es[j].0 != other by {
                if es[j].0 == other {
                    lemma_key_pos_some(es, other, j);
                }
            }
            assert forall|j: int| 0 <= j < ns.len() implies ns[j].0 != other by {
                if j < es.len() {
                    assert(ns[j].0 == es[j].0 || ns[j].0 == key);
                }
            }
            lemma_key_pos_absent(ns, other);
        },
    }
}

/// A value stored under a key reads back, under that key, as the value
/// read from what was stored: a typed write then a typed read of the same
/// member is the read of the written value.
pub proof fn law_get_after_add<T: View, U>(es: Seq<(Seq<char>, Jval)>, key: Seq<char>, value: U)
    where
        JsoncObj: JsoncExport<T> + JsonImport<U>,
    ensures
        jval_member(Jval::Object(members_set(es, key, <JsoncObj as JsonImport<U>>::import_view(value))), key)
            matches Some(m) && <JsoncObj as JsoncExport<T>>::export_spec(m)
            == <JsoncObj as JsoncExport<T>>::export_spec(<JsoncObj as JsonImport<U>>::import_view(value)),
{
    law_member_read_after_set(es, key, <JsoncObj as JsonImport<U>>::import_view(value));
}

/// Every Rust value stored as JSON reads back as itself with the type it
/// was stored from; a `u32` does so up to the largest `i32`, above which
/// it reads back as that bound.
pub proof fn law_typed_roundtrip(b: bool, i: i64, u: u64, i4: i32, u4: u32, i2: i16, u2: u16, i1: i8, u1: u8, s: &str)
    ensures
        <JsoncObj as JsoncExport<bool>>::export_spec(<JsoncObj as JsonImport<bool>>::import_view(b)) == Ok::<bool, AfbErrorView>(b),
        <JsoncObj as JsoncExport<i64>>::export_spec(<JsoncObj as JsonImport<i64>>::import_view(i)) == Ok::<i64, AfbErrorView>(i),
        <JsoncObj as JsoncExport<u64>>::export_spec(<JsoncObj as JsonImport<u64>>::import_view(u)) == Ok::<u64, AfbErrorView>(u),
        <JsoncObj as JsoncExport<i32>>::export_spec(<JsoncObj as JsonImport<i32>>::import_view(i4)) == Ok::<i32, AfbErrorView>(i4),
        u4 <= i32::MAX ==> <JsoncObj as JsoncExport<u32>>::export_spec(<JsoncObj as JsonImport<u32>>::import_view(u4)) == Ok::<u32, AfbErrorView>(u4),
        u4 > i32::MAX ==> <JsoncObj as JsoncExport<u32>>::export_spec(<JsoncObj as JsonImport<u32>>::import_view(u4)) == Ok::<u32, AfbErrorView>(i32::MAX as u32),
        <JsoncObj as JsoncExport<i16>>::export_spec(<JsoncObj as JsonImport<i16>>::import_view(i2)) == Ok::<i16, AfbErrorView>(i2),
        <JsoncObj as JsoncExport<u16>>::export_spec(<JsoncObj as JsonImport<u16>>::import_view(u2)) == Ok::<u16, AfbErrorView>(u2),
        <JsoncObj as JsoncExport<i8>>::export_spec(<JsoncObj as JsonImport<i8>>::import_view(i1)) == Ok::<i8, AfbErrorView>(i1),
        <JsoncObj as JsoncExport<u8>>::export_spec(<JsoncObj as JsonImport<u8>>::import_view(u1)) == Ok::<u8, AfbErrorView>(u1),
        <JsoncObj as JsoncExport<String>>::export_spec(<JsoncObj as JsonImport<&str>>::import_view(s)) == Ok::<Seq<char>, AfbErrorView>(s@),
{
    assert(((u as i64) as u64) == u) by (bit_vector);
}

/// An item appended to an array is read back at the array's former length.
pub proof fn law_index_after_append(items: Seq<Jval>, val: Jval)
    ensures
        items_at(items.push(val), items.len() as int) == Ok::<Jval, AfbErrorView>(val),
{
}

/// An item put at an index is read back at that index, and the array then
/// holds at least that many items.
pub proof fn law_index_after_put(items: Seq<Jval>, idx: int, val: Jval)
    requires
        0 <= idx < usize::MAX,
    ensures
        items_at(items_put(items, idx, val), idx) == Ok::<Jval, AfbErrorView>(val),
        items_put(items, idx, val).len() == if idx < items.len() { items.len() as int } else { idx + 1 },
{
}

/// No two members of an object share a name.
pub open spec fn unique_keys(es: Seq<(Seq<char>, Jval)>) -> bool {
    forall|i: int, j: int| 0 <= i < j < es.len() ==> es[i].0 != es[j].0
}

/// A value whose objects have distinct member names and that holds no
/// null (a null never matches, not even another null).
pub open spec fn matchable(v: Jval) -> bool
    decreases v,
{
    match v {
        Jval::Null => false,
        Jval::Array(items) => forall|i: int| 0 <= i < items.len() ==> matchable(#[trigger] items[i]),
        Jval::Object(es) => unique_keys(es) && forall|i: int| 0 <= i < es.len() ==> matchable(#[trigger] es[i].1),
        _ => true,
    }
}

proof fn lemma_unique_pos(es: Seq<(Seq<char>, Jval)>, j: int)
    requires
        unique_keys(es),
        0 <= j < es.len(),
    ensures
        key_pos(es, es[j].0) == Some(j),
{
    assert(first_key_at(es, es[j].0, j));
    lemma_key_pos_found(es, es[j].0, j);
}

/// A value matches itself, in either mode, when it holds no null and its
/// objects have distinct member names.
pub proof fn law_equal_reflexive(v: Jval, uid: Seq<char>, tag: Jequal)
    requires
        matchable(v),
    ensures
        equal_spec(v, uid, v, tag) == Ok::<(), AfbErrorView>(()),
    decreases v,
{
    match v {
        Jval::Array(items) => {
            let rs = array_checks(items, uid, items, tag);
            assert forall|i: int| 0 <= i < rs.len() implies rs[i] is Ok by {
                assert(matchable(items[i]));
                law_equal_reflexive(items[i], slot_uid(uid, i), tag);
            }
            lemma_first_err_none(rs);
        },
        Jval::Object(es) => {
            match tag {
                Jequal::Partial => {
                    let rs = partial_checks(es, json_text(v), uid, es, tag);
                    assert forall|j: int| 0 <= j < rs.len() implies rs[j] is Ok by {
                        lemma_unique_pos(es, j);
                        assert(matchable(es[j].1));
                        law_equal_reflexive(es[j].1, es[j].0, tag);
                    }
                    lemma_first_err_none(rs);
                },
                Jequal::Full => {
                    let rs = full_checks(es, uid, es, json_text(v), tag);
                    assert forall|j: int| 0 <= j < rs.len() implies rs[j] is Ok by {
                        lemma_unique_pos(es, j);
                        assert(matchable(es[j].1));
                        law_equal_reflexive(es[j].1, es[j].0, tag);
                    }
                    lemma_first_err_none(rs);
                },
            }
        },
        _ => {},
    }
}

/// An object contains itself when its member names are distinct.
pub proof fn law_contains_reflexive(v: Jval)
    requires
        v matches Jval::Object(es) ==> unique_keys(es),
    ensures
        contains_spec(v, v) == Ok::<(), AfbErrorView>(()),
{
    match v {
        Jval::Object(es) => {
            let rs = contains_checks(v, es);
            assert forall|j: int| 0 <= j < rs.len() implies rs[j] is Ok by {
                lemma_unique_pos(es, j);
            }
            lemma_first_err_none(rs);
        },
        _ => {},
    }
}

proof fn lemma_hex_char(d: nat)
    requires
        d < 16,
    ensures
        is_hex_digit(hex_char(d)),
        hex_digit_value(hex_char(d)) == d,
        hex_char(d) != ',',
        hex_char(d) != '+',
{
}

proof fn lemma_byte_hex(b: u8)
    ensures
        hex_byte(byte_hex(b)) == Some(b),
        forall|i: int| 0 <= i < byte_hex(b).len() ==> byte_hex(b)[i] != ',',
{
    let hi = (b / 16) as nat;
    let lo = (b % 16) as nat;
    lemma_hex_char(hi);
    lemma_hex_char(lo);
    let d = byte_hex(b);
    assert(d.drop_last() =~= seq![hex_char(hi)]);
    assert(d.drop_last().drop_last() =~= Seq::<char>::empty());
    assert(digits_value(d.drop_last().drop_last()) == 0);
    assert(d.drop_last().last() == hex_char(hi));
    assert(digits_value(d.drop_last()) == digits_value(d.drop_last().drop_last()) * 16 + hex_digit_value(hex_char(hi)));
    assert(digits_value(d.drop_last()) == hi);
    assert(digits_value(d) == hi * 16 + lo);
    assert(all_hex(d));
}

proof fn lemma_split_append(s: Seq<char>, t: Seq<char>)
    requires
        forall|i: int| 0 <= i < t.len() ==> t[i] != ',',
    ensures
        ({
            let p = split_commas(s);
            split_commas(s + t) == p.update(p.len() - 1, p.last() + t)
        }),
    decreases t.len(),
{
    lemma_split_nonempty(s);
    let p = split_commas(s);
    if t.len() == 0 {
        assert(s + t =~= s);
        assert(p.last() + t =~= p.last());
        assert(p.update(p.len() - 1, p.last() + t) =~= p);
    } else {
        let t0 = t.drop_last();
        lemma_split_append(s, t0);
        assert((s + t).drop_last() =~= s + t0);
        assert((s + t).last() == t.last());
        let q = split_commas(s + t0);
        assert(q.last() == p.last() + t0);
        assert((p.last() + t0).push(t.last()) =~= p.last() + t);
        assert(q.update(q.len() - 1, q.last().push(t.last())) =~= p.update(p.len() - 1, p.last() + t));
    }
}

proof fn lemma_split_items(bs: Seq<u8>)
    requires
        bs.len() >= 1,
    ensures
        split_commas(hexa_items(bs)) == Seq::new(bs.len(), |j: int| byte_hex(bs[j])),
    decreases bs.len(),
{
    if bs.len() == 1 {
        lemma_byte_hex(bs[0]);
        lemma_split_append(Seq::empty(), byte_hex(bs[0]));
        assert(Seq::<char>::empty() + byte_hex(bs[0]) =~= byte_hex(bs[0]));
        assert(split_commas(Seq::<char>::empty()) == seq![Seq::<char>::empty()]);
        assert(Seq::new(bs.len(), |j: int| byte_hex(bs[j])) =~= seq![byte_hex(bs[0])]);
    } else {
        let init = bs.drop_last();
        let a = hexa_items(init);
        lemma_split_items(init);
        lemma_split_nonempty(a);
        let c = a + seq![','];
        assert(c.drop_last() =~= a);
        assert(split_commas(c) == split_commas(a).push(Seq::<char>::empty()));
        lemma_byte_hex(bs.last());
        lemma_split_append(c, byte_hex(bs.last()));
        assert(hexa_items(bs) =~= c + byte_hex(bs.last()));
        let q = split_commas(c);
        assert(Seq::<char>::empty() + byte_hex(bs.last()) =~= byte_hex(bs.last()));
        assert(q.update(q.len() - 1, q.last() + byte_hex(bs.last())) =~= Seq::new(bs.len(), |j: int| byte_hex(bs[j])));
    }
}

/// The text `bytes_to_hexa` writes for a non-empty byte string decodes,
/// into a buffer of at least that many bytes, back to the same bytes.
pub proof fn law_hexa_roundtrip(bs: Seq<u8>, cap: nat)
    requires
        bs.len() >= 1,
        cap >= bs.len(),
    ensures
        ({
            let text = hexa_text(bs);
            let pieces = hexa_pieces(text);
            &&& text.len() >= 2
            &&& text[0] == '['
            &&& text.last() == ']'
            &&& !(exists|k: int| hexa_stop_at(pieces, cap, k))
            &&& hexa_bytes(pieces, pieces.len() as int) == bs
        }),
{
    let text = hexa_text(bs);
    let items = hexa_items(bs);
    assert(text.subrange(1, text.len() - 1) =~= items);
    lemma_split_items(bs);
    let pieces = hexa_pieces(text);
    assert(pieces == Seq::new(bs.len(), |j: int| byte_hex(bs[j])));
    assert forall|j: int| 0 <= j < pieces.len() implies #[trigger] hex_byte(pieces[j]) == Some(bs[j]) by {
        lemma_byte_hex(bs[j]);
    }
    if exists|k: int| hexa_stop_at(pieces, cap, k) {
        let k = choose|k: int| hexa_stop_at(pieces, cap, k);
        assert(hex_byte(pieces[k]) == Some(bs[k]));
    }
    assert(hexa_bytes(pieces, pieces.len() as int) =~= bs);
}

/// Every known log level survives the trip to its syslog number and back, and
/// its verbosity mask is the mask of that number.
pub proof fn law_syslog_roundtrip(level: AfbLogLevel)
    requires
        !(level is Unknown),
    ensures
        syslog_of(level) <= 7,
        level_of_syslog(syslog_of(level)) == Some(level),
        abs_level(syslog_of(level) as i32) == syslog_of(level) as nat,
{
}

proof fn lemma_level_bit(n: nat)
    requires
        n < 8,
    ensures
        level_bit(n) == (1u32 << (n as u32)),
{
    let k = n as u32;
    assert(k < 8 ==> (1u32 << k) == (if k == 0 { 1u32 } else if k == 1 { 2u32 } else if k == 2 { 4u32 } else if k == 3 {
        8u32
    } else if k == 4 { 16u32 } else if k == 5 { 32u32 } else if k == 6 { 64u32 } else { 128u32 })) by (bit_vector);
}

/// A verbosity mask made of one known level's bit lets that level through and
/// no other known level.
pub proof fn law_mask_selects_level(a: AfbLogLevel, b: AfbLogLevel)
    requires
        !(a is Unknown),
        !(b is Unknown),
    ensures
        (level_bit(syslog_of(a) as nat) & level_bit(syslog_of(b) as nat) != 0) <==> a == b,
{
    let i = syslog_of(a);
    let j = syslog_of(b);
    lemma_level_bit(i as nat);
    lemma_level_bit(j as nat);
    assert(i < 8 && j < 8 ==> ((((1u32 << i) & (1u32 << j)) != 0) <==> i == j)) by (bit_vector);
    law_syslog_roundtrip(a);
    law_syslog_roundtrip(b);
}

/// A permission that inherits no rule is its own rule; no permission of
/// its own passes the inherited rule on unchanged; both together must
/// both hold.
pub proof fn law_permission_merge(p: AfbPermission, inherited: Option<Box<AfbAuthV4>>)
    ensures
        inherited is None ==> auth_merge(auth_base(p), inherited) == auth_base(p),
        auth_base(p) is None ==> auth_merge(auth_base(p), inherited) == inherited,
        auth_base(p) is Some && inherited is Some ==> auth_merge(auth_base(p), inherited) == Some(
            Box::new(AfbAuthV4::And { first: auth_base(p), next: inherited }),
        ),
{
}

/// A level of assurance of 0 is no restriction at all.
pub proof fn law_loa_zero_is_open(inherited: Option<Box<AfbAuthV4>>)
    ensures
        auth_base(<AfbPermission as ToPermission<i32>>::permission_of(0)) is None,
        auth_merge(auth_base(<AfbPermission as ToPermission<i32>>::permission_of(0)), inherited) == inherited,
{
}

/// A run of registrations ends with the status of its first failure, or,
/// when none failed, with the status of its last registration.
pub proof fn law_run_status(s: Seq<i32>, k: int)
    requires
        0 <= k < s.len(),
        s[k] < 0,
        forall|i: int| 0 <= i < k ==> s[i] >= 0,
    ensures
        run_status(s.take(k + 1)) == s[k],
        run_status(s) == s[k],
    decreases s.len(),
{
    let t = s.take(k + 1);
    assert forall|i: int| 0 <= i < t.len() - 1 implies t[i] >= 0 by {
        assert(t[i] == s[i]);
    }
    lemma_run_status_last(t);
    if k > 0 {
        assert(s[0] >= 0);
        let d = s.drop_first();
        law_run_status(d, k - 1);
        assert(d[k - 1] == s[k]);
    }
}

/// The tests of a group are numbered from 1 in the order they were added,
/// and the group counts them.
pub open spec fn numbered(tests: Seq<AfbTapTest>, added: usize) -> bool {
    &&& added == tests.len()
    &&& forall|i: int| 0 <= i < tests.len() ==> #[trigger] tests[i].index == i + 1
}

/// Adding a test to a group keeps its tests numbered in order: an empty
/// group is numbered, and the test added gets the next number.
pub proof fn law_tap_numbering(tests: Seq<AfbTapTest>, added: usize, test: AfbTapTest)
    requires
        numbered(tests, added),
        added < usize::MAX,
    ensures
        numbered(Seq::empty(), 0),
        numbered(tests.push(AfbTapTest { index: (added + 1) as usize, ..test }), (added + 1) as usize),
{
    let ts = tests.push(AfbTapTest { index: (added + 1) as usize, ..test });
    assert forall|i: int| 0 <= i < ts.len() implies #[trigger] ts[i].index == i + 1 by {
        if i < tests.len() {
            assert(ts[i] == tests[i]);
        }
    }
}

/// A reply fails its test whenever its status is not the one expected; a
/// reply with the expected status whose arguments are exactly the
/// expected values passes, when the expected objects have distinct member
/// names.
pub proof fn law_tap_check(want: i32, expect: Seq<Jval>, status: i32, reply: Seq<Result<Jval, AfbErrorView>>)
    ensures
        status != want ==> check_spec(want, expect, status, reply).0 == AFB_FAIL,
        (forall|i: int| 0 <= i < expect.len() ==> (#[trigger] expect[i] matches Jval::Object(es) ==> unique_keys(es)))
            ==> check_spec(want, expect, want, Seq::new(expect.len(), |i: int| Ok::<Jval, AfbErrorView>(expect[i])))
            == (AFB_OK, Seq::<char>::empty()),
{
    if forall|i: int| 0 <= i < expect.len() ==> (#[trigger] expect[i] matches Jval::Object(es) ==> unique_keys(es)) {
        let rep = Seq::new(expect.len(), |i: int| Ok::<Jval, AfbErrorView>(expect[i]));
        let ds = arg_diags(expect, rep);
        assert forall|j: int| 0 <= j < ds.len() implies ds[j] is None by {
            if expect[j] is Object {
                law_contains_reflexive(expect[j]);
            }
        }
        assert forall|k: int| !first_diag_at(ds, k) by {
            if first_diag_at(ds, k) {
                assert(ds[k] is None);
            }
        }
        assert(first_diag(ds) is None);
    }
}

/// An array whose items are all strings.
pub open spec fn string_lines(v: Jval) -> bool {
    &&& v is Array
    &&& forall|i: int| 0 <= i < v->Array_0.len() ==> (#[trigger] v->Array_0[i]) is Str
}

proof fn lemma_group_report_lines(uid: Seq<char>, tests: Seq<AfbTapTest>)
    ensures
        string_lines(group_report(uid, tests)),
{
}

proof fn lemma_members_set_lines(es: Seq<(Seq<char>, Jval)>, key: Seq<char>, val: Jval)
    requires
        forall|j: int| 0 <= j < es.len() ==> string_lines(#[trigger] es[j].1),
        string_lines(val),
    ensures
        forall|j: int| 0 <= j < members_set(es, key, val).len() ==> string_lines(#[trigger] members_set(es, key, val)[j].1),
{
}

/// Every report a suite makes can be printed in the `TAP` output: it is an
/// object of groups whose lines are all strings.
pub proof fn law_suite_report_printable(uid: Seq<char>, tests: Seq<AfbTapTest>, gs: Seq<AfbTapGroup>)
    ensures
        printable_report(Jval::Object(suite_members(group_report(uid, tests), gs))),
    decreases gs.len(),
{
    let auto = group_report(uid, tests);
    lemma_group_report_lines(uid, tests);
    let es = suite_members(auto, gs);
    if gs.len() > 0 {
        law_suite_report_printable(uid, tests, gs.drop_last());
        let prev = suite_members(auto, gs.drop_last());
        assert forall|j: int| 0 <= j < prev.len() implies string_lines(#[trigger] prev[j].1) by {
            assert(Jval::Object(prev)->Object_0[j] == prev[j]);
        }
        lemma_group_report_lines(gs.last().uid@, gs.last().tests@);
        lemma_members_set_lines(prev, gs.last().uid@, group_report(gs.last().uid@, gs.last().tests@));
    }
    assert forall|j: int| 0 <= j < es.len() implies string_lines(#[trigger] es[j].1) by {}
}

/// Setting a member that an object has keeps its count; setting a new one
/// adds one member.
pub proof fn law_member_count(es: Seq<(Seq<char>, Jval)>, key: Seq<char>, val: Jval)
    ensures
        members_set(es, key, val).len() == es.len() + if jval_member(Jval::Object(es), key) is Some {
            0int
        } else {
            1int
        },
{
}

/// The sign of a verbosity level does not matter.
pub proof fn law_verbosity_sign(level: i32)
    requires
        level != i32::MIN,
    ensures
        abs_level(-level as i32) == abs_level(level),
{
}

/// A list of one permission is one node over that permission's rule.
pub proof fn law_single_permission_list(p: AfbPermission, is_and: bool)
    ensures
        crate::permission::auth_chain(seq![p], is_and) == Some(
            Box::new(crate::permission::auth_node(is_and, auth_base(p), None)),
        ),
{
    let one = seq![p];
    assert(one.drop_last() =~= Seq::<AfbPermission>::empty());
    assert(one.last() == p);
    assert(crate::permission::auth_chain(one.drop_last(), is_and) is None);
}

/// Every object inside a value, at any depth, has distinct member names:
/// the values the library builds.
pub open spec fn json_wf(v: Jval) -> bool
    decreases v,
{
    match v {
        Jval::Array(items) => forall|i: int| 0 <= i < items.len() ==> json_wf(#[trigger] items[i]),
        Jval::Object(es) => unique_keys(es) && forall|i: int| 0 <= i < es.len() ==> json_wf(#[trigger] es[i].1),
        _ => true,
    }
}

/// No null stands anywhere inside a value.
pub open spec fn null_free(v: Jval) -> bool
    decreases v,
{
    match v {
        Jval::Null => false,
        Jval::Array(items) => forall|i: int| 0 <= i < items.len() ==> null_free(#[trigger] items[i]),
        Jval::Object(es) => forall|i: int| 0 <= i < es.len() ==> null_free(#[trigger] es[i].1),
        _ => true,
    }
}

/// A well-formed value without null can be matched against itself.
pub proof fn lemma_matchable(v: Jval)
    requires
        json_wf(v),
        null_free(v),
    ensures
        matchable(v),
    decreases v,
{
    match v {
        Jval::Array(items) => {
            assert forall|i: int| 0 <= i < items.len() implies matchable(#[trigger] items[i]) by {
                assert(json_wf(items[i]) && null_free(items[i]));
                lemma_matchable(items[i]);
            }
        },
        Jval::Object(es) => {
            assert forall|i: int| 0 <= i < es.len() implies matchable(#[trigger] es[i].1) by {
                assert(json_wf(es[i].1) && null_free(es[i].1));
                lemma_matchable(es[i].1);
            }
        },
        _ => {},
    }
}

/// A new object or array is well formed; setting a member keeps the member
/// names of an object distinct, and setting a well-formed member, or
/// appending or putting a well-formed item, keeps a value well formed.
pub proof fn law_builds_are_well_formed(es: Seq<(Seq<char>, Jval)>, items: Seq<Jval>, key: Seq<char>, val: Jval, idx: int)
    requires
        0 <= idx,
    ensures
        json_wf(Jval::Object(Seq::empty())),
        json_wf(Jval::Array(Seq::empty())),
        unique_keys(es) ==> unique_keys(members_set(es, key, val)),
        json_wf(Jval::Object(es)) && json_wf(val) ==> json_wf(Jval::Object(members_set(es, key, val))),
        json_wf(Jval::Array(items)) && json_wf(val) ==> json_wf(Jval::Array(items.push(val))),
        json_wf(Jval::Array(items)) && json_wf(val) ==> json_wf(Jval::Array(items_put(items, idx, val))),
{
    let ns = members_set(es, key, val);
    if unique_keys(es) {
        match key_pos(es, key) {
            Some(p) => {
                assert(first_key_at(es, key, p));
                assert forall|i: int, j: int| 0 <= i < j < ns.len() implies ns[i].0 != ns[j].0 by {
                    assert(ns[i].0 == es[i].0);
                    assert(ns[j].0 == es[j].0);
                }
            },
            None => {
                assert forall|i: int, j: int| 0 <= i < j < ns.len() implies ns[i].0 != ns[j].0 by {
                    if j == es.len() {
                        if es[i].0 == key {
                            lemma_key_pos_some(es, key, i);
                        }
                    }
                }
            },
        }
    }
    if json_wf(Jval::Object(es)) && json_wf(val) {
        assert forall|i: int| 0 <= i < ns.len() implies json_wf(#[trigger] ns[i].1) by {
            if i < es.len() && ns[i] == es[i] {
                assert(json_wf(es[i].1));
            }
        }
    }
    if json_wf(Jval::Array(items)) && json_wf(val) {
        let arr = Jval::Array(items);
        assert(json_wf(arr));
        assert(arr->Array_0 == items);
        assert(forall|k: int| 0 <= k < items.len() ==> json_wf(#[trigger] items[k]));
        let pushed = items.push(val);
        assert forall|i: int| 0 <= i < pushed.len() implies json_wf(#[trigger] pushed[i]) by {
            if i < items.len() {
                assert(json_wf(items[i]));
            }
        }
        let put = items_put(items, idx, val);
        assert forall|i: int| 0 <= i < put.len() implies json_wf(#[trigger] put[i]) by {
            if idx < usize::MAX && idx >= items.len() {
                if i < items.len() {
                    assert(json_wf(items[i]));
                } else if i < idx {
                    assert(put[i] == Jval::Null);
                }
            } else if i < items.len() && i != idx {
                assert(json_wf(items[i]));
            }
        }
    }
}

/// Every value the library builds, with no null inside, matches itself in
/// either mode.
pub proof fn law_equal_reflexive_built(v: Jval, uid: Seq<char>, tag: Jequal)
    requires
        json_wf(v),
        null_free(v),
    ensures
        equal_spec(v, uid, v, tag) == Ok::<(), AfbErrorView>(()),
{
    lemma_matchable(v);
    law_equal_reflexive(v, uid, tag);
}

// ------------------------------------------------------- matching scalars

/// Matching an expected scalar: the received value matches exactly when it
/// is that same value (a null matches nothing); a value of another type is
/// a type mismatch, and another value of the same type is a value mismatch
/// whose text names the received and the expected values.
pub proof fn law_equal_scalars(recv: Jval, uid: Seq<char>, exp: Jval, tag: Jequal)
    requires
        !(exp is Array),
        !(exp is Object),
    ensures
        equal_spec(recv, uid, exp, tag) is Ok <==> (recv == exp && !(recv is Null)),
        jtype_of(recv) != jtype_of(exp) ==> equal_spec(recv, uid, exp, tag) == Err::<(), AfbErrorView>(
            type_mismatch(uid, recv, exp),
        ),
        jtype_of(recv) == jtype_of(exp) && (recv != exp || recv is Null) ==> equal_spec(recv, uid, exp, tag)
            == Err::<(), AfbErrorView>(
            err_view(uid, "jsonc-match invalid value received:"@ + json_text(recv) + " expected:"@ + json_text(exp)),
        ),
{
}

// ------------------------------------------------------------ containment

/// The failing check that comes first makes the whole sequence fail.
proof fn lemma_first_err_some(rs: Seq<Result<(), AfbErrorView>>, i: int)
    requires
        0 <= i < rs.len(),
        rs[i] is Err,
    ensures
        first_err(rs) is Err,
    decreases i,
{
    if forall|j: int| 0 <= j < i ==> rs[j] is Ok {
        assert(first_err_at(rs, i));
        lemma_first_err_found(rs, i);
    } else {
        let j = choose|j: int| 0 <= j < i && !(rs[j] is Ok);
        lemma_first_err_some(rs, j);
    }
}

/// The first member named `key` of a received object has the JSON text
/// `text`.
pub open spec fn member_text_is(recv: Jval, key: Seq<char>, text: Seq<char>) -> bool {
    recv matches Jval::Object(res) && exists|k: int| #[trigger] first_key_at(res, key, k) && json_text(res[k].1) == text
}

/// A token object is contained in a received value exactly when every
/// member of the token names a member of the received object whose JSON
/// text is the text of the token's member; a token that is no object asks
/// for nothing.
pub proof fn law_contains_members(recv: Jval, tes: Seq<(Seq<char>, Jval)>, tok: Jval)
    ensures
        !(tok is Object) ==> contains_spec(recv, tok) == Ok::<(), AfbErrorView>(()),
        contains_spec(recv, Jval::Object(tes)) is Ok <==> forall|j: int|
            0 <= j < tes.len() ==> member_text_is(recv, #[trigger] tes[j].0, json_text(tes[j].1)),
{
    let rs = contains_checks(recv, tes);
    assert forall|j: int| 0 <= j < tes.len() implies (rs[j] is Ok <==> member_text_is(
        recv,
        #[trigger] tes[j].0,
        json_text(tes[j].1),
    )) by {
        match recv {
            Jval::Object(res) => {
                if exists|k: int| first_key_at(res, tes[j].0, k) {
                    let k = choose|k: int| first_key_at(res, tes[j].0, k);
                    lemma_key_pos_found(res, tes[j].0, k);
                    if member_text_is(recv, tes[j].0, json_text(tes[j].1)) {
                        let k2 = choose|k2: int| #[trigger] first_key_at(res, tes[j].0, k2) && json_text(res[k2].1)
                            == json_text(tes[j].1);
                        lemma_key_pos_found(res, tes[j].0, k2);
                    }
                } else {
                    assert(key_pos(res, tes[j].0) is None);
                }
            },
            _ => {},
        }
    }
    if forall|j: int| 0 <= j < tes.len() ==> member_text_is(recv, #[trigger] tes[j].0, json_text(tes[j].1)) {
        assert forall|j: int| 0 <= j < rs.len() implies rs[j] is Ok by {
            assert(member_text_is(recv, tes[j].0, json_text(tes[j].1)));
        }
        lemma_first_err_none(rs);
    } else {
        let j = choose|j: int| 0 <= j < tes.len() && !member_text_is(recv, #[trigger] tes[j].0, json_text(tes[j].1));
        lemma_first_err_some(rs, j);
    }
}

// ------------------------------------------------------------- text form

/// No character of a string needs an escape in JSON.
pub open spec fn plain_text(s: Seq<char>) -> bool {
    forall|i: int| 0 <= i < s.len() ==> (#[trigger] s[i] as u32) >= 0x20 && s[i] != '"' && s[i] != '\\'
}

proof fn lemma_plain_escape(s: Seq<char>)
    requires
        plain_text(s),
    ensures
        escape_text(s) == s,
    decreases s.len(),
{
    if s.len() > 0 {
        assert(plain_text(s.drop_last())) by {
            assert forall|i: int| 0 <= i < s.drop_last().len() implies (#[trigger] s.drop_last()[i] as u32) >= 0x20
                && s.drop_last()[i] != '"' && s.drop_last()[i] != '\\' by {
                assert(s.drop_last()[i] == s[i]);
            }
        }
        lemma_plain_escape(s.drop_last());
        let c = s.last();
        assert((c as u32) >= 0x20 && c != '"' && c != '\\') by {
            assert(c == s[s.len() - 1]);
        }
        assert(c != '\u{8}' && c != '\n' && c != '\r' && c != '\t' && c != '\u{c}') by {
            assert(('\u{8}' as u32) < 0x20 && ('\n' as u32) < 0x20 && ('\r' as u32) < 0x20);
            assert(('\t' as u32) < 0x20 && ('\u{c}' as u32) < 0x20);
        }
        assert(s.drop_last().push(c) =~= s);
    }
}

/// The JSON text of a value: `null`, `true` and `false`, a plain string
/// between double quotes, the members of an object as `"key":value`
/// between braces, the items of an array separated by commas between
/// brackets; the two booleans never have the same text.
pub proof fn law_json_texts(b: bool, s: Seq<char>, key: Seq<char>, v: Jval, w: Jval)
    ensures
        json_text(Jval::Bool(b)) == (if b { "true"@ } else { "false"@ }),
        json_text(Jval::Null) == "null"@,
        json_text(Jval::Bool(true)) != json_text(Jval::Bool(false)),
        plain_text(s) ==> json_text(Jval::Str(s)) == seq!['"'] + s + seq!['"'],
        json_text(Jval::Object(seq![(key, v)])) == seq!['{'] + json_text(Jval::Str(key)) + seq![':'] + json_text(v)
            + seq!['}'],
        json_text(Jval::Array(seq![v, w])) == seq!['['] + json_text(v) + seq![','] + json_text(w) + seq![']'],
{
    reveal_strlit("true");
    reveal_strlit("false");
    reveal_strlit("null");
    assert(json_text(Jval::Bool(true))[0] != json_text(Jval::Bool(false))[0]);
    if plain_text(s) {
        lemma_plain_escape(s);
    }
    let es = seq![(key, v)];
    assert(members_text(es) == member_text(es[0]));
    let items = seq![v, w];
    assert(items.drop_last() =~= seq![v]);
    assert(items_text(items.drop_last()) == json_text(v));
    assert(json_text(Jval::Object(es)) =~= seq!['{'] + json_text(Jval::Str(key)) + seq![':'] + json_text(v) + seq!['}']);
    assert(json_text(Jval::Array(items)) =~= seq!['['] + json_text(v) + seq![','] + json_text(w) + seq![']']);
}

// ---------------------------------------------------------- split values

/// Reading a value as a `Jobject` agrees with the typed reads: a value
/// read as a bool, an integer or a string is split into that same bool,
/// integer or string; a double keeps its text, an array or an object is
/// itself, and a null is refused. A bool, an integer or a string stored
/// as JSON is split back into itself.
pub proof fn law_split_agrees_with_typed_reads(v: Jval, b: bool, i: i64, s: &str)
    ensures
        <JsoncObj as JsoncExport<bool>>::export_spec(v) matches Ok(x) ==> <JsoncObj as JsoncExport<Jobject>>::export_spec(v)
            == Ok::<JobjectView, AfbErrorView>(JobjectView::Bool(x)),
        <JsoncObj as JsoncExport<i64>>::export_spec(v) matches Ok(x) ==> <JsoncObj as JsoncExport<Jobject>>::export_spec(v)
            == Ok::<JobjectView, AfbErrorView>(JobjectView::Int(x)),
        <JsoncObj as JsoncExport<String>>::export_spec(v) matches Ok(x) ==> <JsoncObj as JsoncExport<Jobject>>::export_spec(v)
            == Ok::<JobjectView, AfbErrorView>(JobjectView::String(x)),
        v matches Jval::Float(t) ==> <JsoncObj as JsoncExport<Jobject>>::export_spec(v) == Ok::<JobjectView, AfbErrorView>(
            JobjectView::Float(t),
        ),
        v is Array ==> <JsoncObj as JsoncExport<Jobject>>::export_spec(v) == Ok::<JobjectView, AfbErrorView>(JobjectView::Array(v)),
        v is Object ==> <JsoncObj as JsoncExport<Jobject>>::export_spec(v) == Ok::<JobjectView, AfbErrorView>(JobjectView::Object(v)),
        v is Null ==> <JsoncObj as JsoncExport<Jobject>>::export_spec(v) is Err,
        <JsoncObj as JsoncExport<Jobject>>::export_spec(<JsoncObj as JsonImport<bool>>::import_view(b))
            == Ok::<JobjectView, AfbErrorView>(JobjectView::Bool(b)),
        <JsoncObj as JsoncExport<Jobject>>::export_spec(<JsoncObj as JsonImport<i64>>::import_view(i))
            == Ok::<JobjectView, AfbErrorView>(JobjectView::Int(i)),
        <JsoncObj as JsoncExport<Jobject>>::export_spec(<JsoncObj as JsonImport<&str>>::import_view(s))
            == Ok::<JobjectView, AfbErrorView>(JobjectView::String(s@)),
{
}

// -------------------------------------------------------------- test runs

/// A reply argument that a test accepts for an expected value: it could be
/// read, and it contains the expected object, or has the type and the JSON
/// text of any other expected value.
pub open spec fn arg_accepted(exp: Jval, got: Result<Jval, AfbErrorView>) -> bool {
    got matches Ok(v) && if exp is Object {
        contains_spec(v, exp) is Ok
    } else {
        jtype_of(v) == jtype_of(exp) && json_text(v) == json_text(exp)
    }
}

/// A test passes exactly when the reply has the expected status and every
/// expected argument is accepted; otherwise it fails. So a single argument
/// that is not accepted, wherever it stands, fails the test.
pub proof fn law_tap_check_every_arg(want: i32, expect: Seq<Jval>, status: i32, reply: Seq<Result<Jval, AfbErrorView>>)
    requires
        expect.len() <= reply.len(),
    ensures
        check_spec(want, expect, status, reply).0 == AFB_OK || check_spec(want, expect, status, reply).0 == AFB_FAIL,
        check_spec(want, expect, status, reply).0 == AFB_OK <==> (status == want && forall|i: int|
            0 <= i < expect.len() ==> arg_accepted(#[trigger] expect[i], reply[i])),
{
    let ds = arg_diags(expect, reply);
    assert forall|i: int| 0 <= i < expect.len() implies (ds[i] is None <==> arg_accepted(#[trigger] expect[i], reply[i])) by {
        assert(ds[i] == arg_diag(expect[i], reply[i]));
    }
    if forall|i: int| 0 <= i < expect.len() ==> arg_accepted(#[trigger] expect[i], reply[i]) {
        assert forall|k: int| !first_diag_at(ds, k) by {
            if first_diag_at(ds, k) {
                assert(arg_accepted(expect[k], reply[k]));
            }
        }
    } else {
        let j = choose|j: int| 0 <= j < expect.len() && !arg_accepted(#[trigger] expect[j], reply[j]);
        lemma_first_diag_some(ds, j);
    }
}

/// The diagnostic that comes first makes the whole sequence fail.
proof fn lemma_first_diag_some(ds: Seq<Option<Seq<char>>>, i: int)
    requires
        0 <= i < ds.len(),
        ds[i] is Some,
    ensures
        first_diag(ds) is Some,
    decreases i,
{
    if forall|j: int| 0 <= j < i ==> ds[j] is None {
        assert(first_diag_at(ds, i));
    } else {
        let j = choose|j: int| 0 <= j < i && !(ds[j] is None);
        lemma_first_diag_some(ds, j);
    }
}

// ---------------------------------------------------- matching containers

/// Nothing matches an expected null.
proof fn lemma_null_matches_nothing(recv: Jval, uid: Seq<char>, tag: Jequal)
    ensures
        equal_spec(recv, uid, Jval::Null, tag) is Err,
{
    law_equal_scalars(recv, uid, Jval::Null, tag);
}

/// A received array matches an expected array exactly when it has no more
/// items than the expected one and each of its items matches the expected
/// item at the same position, labelled by the array's label, `:` and the
/// position; anything else than an array does not match an array.
pub proof fn law_equal_arrays(recv: Jval, uid: Seq<char>, eitems: Seq<Jval>, tag: Jequal)
    ensures
        equal_spec(recv, uid, Jval::Array(eitems), tag) is Ok <==> (recv matches Jval::Array(ritems)
            && ritems.len() <= eitems.len() && forall|i: int|
            0 <= i < ritems.len() ==> equal_spec(
                #[trigger] ritems[i],
                uid + seq![':'] + int_text(i),
                eitems[i],
                tag,
            ) is Ok),
{
    match recv {
        Jval::Array(ritems) => {
            let rs = array_checks(ritems, uid, eitems, tag);
            if ritems.len() <= eitems.len() && forall|i: int|
                0 <= i < ritems.len() ==> equal_spec(#[trigger] ritems[i], uid + seq![':'] + int_text(i), eitems[i], tag) is Ok {
                assert forall|i: int| 0 <= i < rs.len() implies rs[i] is Ok by {
                    assert(slot_uid(uid, i) == uid + seq![':'] + int_text(i));
                    assert(equal_spec(ritems[i], uid + seq![':'] + int_text(i), eitems[i], tag) is Ok);
                }
                lemma_first_err_none(rs);
            } else if ritems.len() > eitems.len() {
                let i = eitems.len() as int;
                lemma_null_matches_nothing(ritems[i], slot_uid(uid, i), tag);
                assert(rs[i] is Err);
                lemma_first_err_some(rs, i);
            } else {
                let i = choose|i: int|
                    0 <= i < ritems.len() && !(equal_spec(#[trigger] ritems[i], uid + seq![':'] + int_text(i), eitems[i], tag) is Ok);
                assert(slot_uid(uid, i) == uid + seq![':'] + int_text(i));
                assert(rs[i] is Err);
                lemma_first_err_some(rs, i);
            }
        },
        _ => {},
    }
}

/// The expected member `e` is found among the received members `res` (the
/// first of its name) with a value that matches it in `Partial` mode,
/// labelled by the member's name.
pub open spec fn partial_member_ok(res: Seq<(Seq<char>, Jval)>, e: (Seq<char>, Jval)) -> bool {
    exists|k: int| #[trigger] first_key_at(res, e.0, k) && equal_spec(res[k].1, e.0, e.1, Jequal::Partial) is Ok
}

/// The received member `r` is expected among `ees` (the first of its
/// name) with a value that it matches in `Full` mode, labelled by the
/// member's name.
pub open spec fn full_member_ok(ees: Seq<(Seq<char>, Jval)>, r: (Seq<char>, Jval)) -> bool {
    exists|k: int| #[trigger] first_key_at(ees, r.0, k) && equal_spec(r.1, ees[k].0, ees[k].1, Jequal::Full) is Ok
}

/// In `Partial` mode a received object matches an expected object exactly
/// when every expected member is found in it with a value that matches;
/// anything else than an object does not match an object.
pub proof fn law_equal_objects_partial(recv: Jval, uid: Seq<char>, ees: Seq<(Seq<char>, Jval)>)
    ensures
        equal_spec(recv, uid, Jval::Object(ees), Jequal::Partial) is Ok <==> (recv matches Jval::Object(res) && forall|j: int|
            0 <= j < ees.len() ==> partial_member_ok(res, #[trigger] ees[j])),
{
    match recv {
        Jval::Object(res) => {
            let rs = partial_checks(res, json_text(recv), uid, ees, Jequal::Partial);
            assert forall|j: int| 0 <= j < ees.len() implies (rs[j] is Ok <==> partial_member_ok(res, #[trigger] ees[j])) by {
                if exists|k: int| first_key_at(res, ees[j].0, k) {
                    let k = choose|k: int| first_key_at(res, ees[j].0, k);
                    lemma_key_pos_found(res, ees[j].0, k);
                    if partial_member_ok(res, ees[j]) {
                        let k2 = choose|k2: int|
                            #[trigger] first_key_at(res, ees[j].0, k2) && equal_spec(res[k2].1, ees[j].0, ees[j].1, Jequal::Partial) is Ok;
                        lemma_key_pos_found(res, ees[j].0, k2);
                    }
                } else {
                    assert(key_pos(res, ees[j].0) is None);
                }
            }
            if forall|j: int| 0 <= j < ees.len() ==> partial_member_ok(res, #[trigger] ees[j]) {
                assert forall|j: int| 0 <= j < rs.len() implies rs[j] is Ok by {
                    assert(partial_member_ok(res, ees[j]));
                }
                lemma_first_err_none(rs);
            } else {
                let j = choose|j: int| 0 <= j < ees.len() && !partial_member_ok(res, #[trigger] ees[j]);
                lemma_first_err_some(rs, j);
            }
        },
        _ => {},
    }
}

/// In `Full` mode a received object matches an expected object exactly
/// when every received member is expected with a value that it matches;
/// anything else than an object does not match an object.
pub proof fn law_equal_objects_full(recv: Jval, uid: Seq<char>, ees: Seq<(Seq<char>, Jval)>)
    ensures
        equal_spec(recv, uid, Jval::Object(ees), Jequal::Full) is Ok <==> (recv matches Jval::Object(res) && forall|j: int|
            0 <= j < res.len() ==> full_member_ok(ees, #[trigger] res[j])),
{
    match recv {
        Jval::Object(res) => {
            let rs = full_checks(res, uid, ees, json_text(Jval::Object(ees)), Jequal::Full);
            assert forall|j: int| 0 <= j < res.len() implies (rs[j] is Ok <==> full_member_ok(ees, #[trigger] res[j])) by {
                if exists|k: int| first_key_at(ees, res[j].0, k) {
                    let k = choose|k: int| first_key_at(ees, res[j].0, k);
                    lemma_key_pos_found(ees, res[j].0, k);
                    if full_member_ok(ees, res[j]) {
                        let k2 = choose|k2: int|
                            #[trigger] first_key_at(ees, res[j].0, k2) && equal_spec(res[j].1, ees[k2].0, ees[k2].1, Jequal::Full) is Ok;
                        lemma_key_pos_found(ees, res[j].0, k2);
                    }
                } else {
                    assert(key_pos(ees, res[j].0) is None);
                }
            }
            if forall|j: int| 0 <= j < res.len() ==> full_member_ok(ees, #[trigger] res[j]) {
                assert forall|j: int| 0 <= j < rs.len() implies rs[j] is Ok by {
                    assert(full_member_ok(ees, res[j]));
                }
                lemma_first_err_none(rs);
            } else {
                let j = choose|j: int| 0 <= j < res.len() && !full_member_ok(ees, #[trigger] res[j]);
                lemma_first_err_some(rs, j);
            }
        },
        _ => {},
    }
}

// ------------------------------------------------------- numbers as text

/// The code of a decimal digit's character.
proof fn lemma_digit_code(d: nat)
    requires
        d < 10,
    ensures
        hex_char(d) as u32 == 48 + d,
{
    assert('0' as u32 == 48 && '1' as u32 == 49 && '2' as u32 == 50 && '3' as u32 == 51 && '4' as u32 == 52);
    assert('5' as u32 == 53 && '6' as u32 == 54 && '7' as u32 == 55 && '8' as u32 == 56 && '9' as u32 == 57);
}

/// The character of an upper-case hexadecimal digit reads back as it.
proof fn lemma_upper_digit_code(d: nat)
    requires
        d < 16,
    ensures
        48 <= (upper_hex_char(d) as u32) <= 57 || 65 <= (upper_hex_char(d) as u32) <= 70,
        hex_digit_value(upper_hex_char(d)) == d,
{
    if d < 10 {
        lemma_digit_code(d);
    } else {
        assert('A' as u32 == 65 && 'B' as u32 == 66 && 'C' as u32 == 67);
        assert('D' as u32 == 68 && 'E' as u32 == 69 && 'F' as u32 == 70);
    }
}

/// The value of a string of decimal digits.
pub open spec fn decimal_value(d: Seq<char>) -> int
    decreases d.len(),
{
    if d.len() == 0 {
        0
    } else {
        decimal_value(d.drop_last()) * 10 + (d.last() as u32 - 48)
    }
}

/// A string of decimal digits with no leading zero, unless it is `0`.
pub open spec fn canonical_decimal(d: Seq<char>) -> bool {
    &&& d.len() > 0
    &&& forall|i: int| 0 <= i < d.len() ==> 48 <= (#[trigger] d[i] as u32) <= 57
    &&& (d[0] == '0' ==> d.len() == 1)
}

/// The decimal text of a natural number is made of digits, has no leading
/// zero, and reads back as that number; an integer's text is that of its
/// magnitude, after a `-` when it is negative.
pub proof fn law_decimal_text(n: nat, i: int)
    ensures
        canonical_decimal(nat_text(n)),
        decimal_value(nat_text(n)) == n,
        int_text(i) == (if i < 0 { seq!['-'] + nat_text((-i) as nat) } else { nat_text(i as nat) }),
    decreases n,
{
    if n < 10 {
        lemma_digit_code(n);
        assert(nat_text(n) =~= seq![hex_char(n)]);
        assert(seq![hex_char(n)].drop_last() =~= Seq::<char>::empty());
        assert(decimal_value(Seq::<char>::empty()) == 0);
        assert(seq![hex_char(n)].last() == hex_char(n));
        assert(decimal_value(seq![hex_char(n)]) == decimal_value(Seq::<char>::empty()) * 10 + (hex_char(n) as u32 - 48));
        assert(decimal_value(seq![hex_char(n)]) == n);
    } else {
        law_decimal_text(n / 10, i);
        lemma_digit_code(n % 10);
        lemma_digit_code(0);
        let d = nat_text(n / 10);
        let c = hex_char(n % 10);
        assert(nat_text(n) == d.push(c));
        assert(d.push(c).drop_last() =~= d);
        assert forall|k: int| 0 <= k < d.push(c).len() implies 48 <= (#[trigger] d.push(c)[k] as u32) <= 57 by {
            if k < d.len() {
                assert(d.push(c)[k] == d[k]);
            }
        }
        assert(d.push(c)[0] == d[0]);
        if d[0] == '0' {
            assert(decimal_value(d) == 0) by {
                assert(d.len() == 1);
                assert(d.drop_last() =~= Seq::<char>::empty());
                assert(decimal_value(Seq::<char>::empty()) == 0);
                assert(d.last() == d[0]);
                assert('0' as u32 == 48);
            }
        }
    }
}

/// The upper-case hexadecimal text of a natural number is made of digits
/// `0`-`9` and `A`-`F` and reads back as that number; padded to a width,
/// it is at least that wide and still reads back as the number.
pub proof fn law_upper_hex_text(n: nat, width: nat)
    ensures
        forall|k: int| 0 <= k < upper_hex_text(n).len() ==> {
            let c = #[trigger] upper_hex_text(n)[k];
            48 <= (c as u32) <= 57 || 65 <= (c as u32) <= 70
        },
        digits_value(upper_hex_text(n)) == n,
        padded_upper_hex(n, width).len() >= width,
        digits_value(padded_upper_hex(n, width)) == n,
    decreases n,
{
    if n < 16 {
        lemma_upper_digit_code(n);
        assert(upper_hex_text(n) =~= seq![upper_hex_char(n)]);
        assert(seq![upper_hex_char(n)].drop_last() =~= Seq::<char>::empty());
        assert(digits_value(Seq::<char>::empty()) == 0);
        assert(seq![upper_hex_char(n)].last() == upper_hex_char(n));
        assert(digits_value(seq![upper_hex_char(n)]) == n);
    } else {
        law_upper_hex_text(n / 16, 0);
        lemma_upper_digit_code(n % 16);
        let d = upper_hex_text(n / 16);
        let c = upper_hex_char(n % 16);
        assert(upper_hex_text(n) == d.push(c));
        assert(d.push(c).drop_last() =~= d);
        assert(d.push(c).last() == c);
        assert(digits_value(d.push(c)) == digits_value(d) * 16 + hex_digit_value(c));
        assert forall|k: int| 0 <= k < d.push(c).len() implies {
            let x = #[trigger] d.push(c)[k];
            48 <= (x as u32) <= 57 || 65 <= (x as u32) <= 70
        } by {
            if k < d.len() {
                assert(d.push(c)[k] == d[k]);
            }
        }
    }
    let d = upper_hex_text(n);
    if d.len() < width {
        let z = Seq::new((width - d.len()) as nat, |i: int| '0');
        lemma_zeros_then_digits(z, d);
        assert(padded_upper_hex(n, width) == z + d);
        assert((z + d).len() == width);
    }
}

/// Zeros in front of digits do not change their value.
proof fn lemma_zeros_then_digits(z: Seq<char>, d: Seq<char>)
    requires
        forall|i: int| 0 <= i < z.len() ==> z[i] == '0',
    ensures
        digits_value(z + d) == digits_value(d),
    decreases d.len(), z.len(),
{
    if d.len() > 0 {
        assert((z + d).drop_last() =~= z + d.drop_last());
        lemma_zeros_then_digits(z, d.drop_last());
    } else if z.len() > 0 {
        assert(z + d =~= z);
        assert(z.drop_last() + d =~= z.drop_last());
        lemma_zeros_then_digits(z.drop_last(), d);
    } else {
        assert(z + d =~= d);
    }
}

// ------------------------------------------------------ escaped strings

/// Reads the escapes of a JSON string back: `\b`, `\n`, `\r`, `\t`, `\f`,
/// `\"`, `\\` and `\u00hh`, any other character standing for itself.
pub open spec fn unescape_text(t: Seq<char>) -> Seq<char>
    decreases t.len(),
{
    if t.len() == 0 {
        Seq::empty()
    } else if t[0] != '\\' || t.len() < 2 {
        seq![t[0]] + unescape_text(t.skip(1))
    } else if t[1] == 'u' && t.len() >= 6 {
        seq![((hex_digit_value(t[4]) * 16 + hex_digit_value(t[5])) as u32) as char] + unescape_text(t.skip(6))
    } else {
        let c = t[1];
        seq![
            if c == 'b' {
                '\u{8}'
            } else if c == 'n' {
                '\n'
            } else if c == 'r' {
                '\r'
            } else if c == 't' {
                '\t'
            } else if c == 'f' {
                '\u{c}'
            } else {
                c
            },
        ] + unescape_text(t.skip(2))
    }
}

proof fn lemma_escape_front(c: char, r: Seq<char>)
    ensures
        escape_text(seq![c] + r) == esc_char(c) + escape_text(r),
    decreases r.len(),
{
    if r.len() == 0 {
        assert(seq![c] + r =~= seq![c]);
        assert(seq![c].drop_last() =~= Seq::<char>::empty());
        assert(esc_char(c) + escape_text(r) =~= esc_char(c));
        assert(escape_text(seq![c]) =~= escape_text(Seq::<char>::empty()) + esc_char(c));
    } else {
        assert((seq![c] + r).drop_last() =~= seq![c] + r.drop_last());
        assert((seq![c] + r).last() == r.last());
        lemma_escape_front(c, r.drop_last());
        assert(escape_text(seq![c] + r) =~= esc_char(c) + escape_text(r));
    }
}

/// A lower-case hexadecimal digit reads back as its value.
proof fn lemma_hex_digit_back(d: nat)
    requires
        d < 16,
    ensures
        hex_digit_value(hex_char(d)) == d,
{
    if d < 10 {
        lemma_digit_code(d);
    } else {
        assert('a' as u32 == 97 && 'b' as u32 == 98 && 'c' as u32 == 99);
        assert('d' as u32 == 100 && 'e' as u32 == 101 && 'f' as u32 == 102);
    }
}

proof fn lemma_unescape_front(c: char, t: Seq<char>)
    ensures
        unescape_text(esc_char(c) + t) == seq![c] + unescape_text(t),
{
    let e = esc_char(c) + t;
    if c == '\u{8}' || c == '\n' || c == '\r' || c == '\t' || c == '\u{c}' || c == '"' || c == '\\' {
        assert(e.skip(2) =~= t);
    } else if (c as u32) < 0x20 {
        let v = c as u32;
        lemma_hex_digit_back((v / 16) as nat);
        lemma_hex_digit_back((v % 16) as nat);
        assert(e[4] == hex_char((v / 16) as nat));
        assert(e[5] == hex_char((v % 16) as nat));
        assert(e.skip(6) =~= t);
        assert(((hex_digit_value(e[4]) * 16 + hex_digit_value(e[5])) as u32) == v);
        assert((v as char) == c);
    } else {
        assert(e[0] == c);
        assert(e.skip(1) =~= t);
    }
}

/// Reading back the escapes of a string gives the string.
proof fn lemma_unescape_escape(s: Seq<char>)
    ensures
        unescape_text(escape_text(s)) == s,
    decreases s.len(),
{
    if s.len() > 0 {
        let c = s[0];
        let r = s.skip(1);
        assert(s =~= seq![c] + r);
        lemma_escape_front(c, r);
        lemma_unescape_front(c, escape_text(r));
        lemma_unescape_escape(r);
    } else {
        assert(escape_text(s) =~= Seq::<char>::empty());
    }
}

/// The JSON text of a string is a text between double quotes whose
/// escapes read back as the string; so two strings with the same JSON
/// text are the same string.
pub proof fn law_string_text_reads_back(s: Seq<char>, s2: Seq<char>)
    ensures
        json_text(Jval::Str(s)).len() >= 2,
        json_text(Jval::Str(s))[0] == '"',
        json_text(Jval::Str(s)).last() == '"',
        unescape_text(json_text(Jval::Str(s)).subrange(1, json_text(Jval::Str(s)).len() - 1)) == s,
        json_text(Jval::Str(s)) == json_text(Jval::Str(s2)) ==> s == s2,
{
    let t = json_text(Jval::Str(s));
    assert(t.subrange(1, t.len() - 1) =~= escape_text(s));
    lemma_unescape_escape(s);
    let t2 = json_text(Jval::Str(s2));
    assert(t2.subrange(1, t2.len() - 1) =~= escape_text(s2));
    lemma_unescape_escape(s2);
}

} // verus!
