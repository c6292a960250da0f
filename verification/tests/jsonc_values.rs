use afbv4::jsonc::{
    bytes_to_str, DoAddon, DoGetJso, DoPutJso, Jentry, Jequal, Jobject, JsoncObj, Jtype, JsonImport,
    JsoncExport, ImportJso,
};

fn obj(members: Vec<(&str, JsoncObj)>) -> JsoncObj {
    let mut v = Vec::new();
    for (k, o) in members {
        v.push(Jentry { key: k.to_string(), obj: o });
    }
    JsoncObj::Object(v)
}

fn text(s: &str) -> JsoncObj {
    JsoncObj::Str(s.to_string())
}

#[test]
fn new_object_and_array_are_empty() {
    let o = JsoncObj::new();
    assert_eq!(o.get_type(), Jtype::Object);
    assert_eq!(o.count().ok(), Some(0));
    let a = JsoncObj::array();
    assert_eq!(a.get_type(), Jtype::Array);
    assert_eq!(a.len().ok(), Some(0));
    assert!(a.is_type(Jtype::Array));
    assert!(!a.is_type(Jtype::Object));
}

#[test]
fn count_of_a_scalar_is_an_error() {
    let e = JsoncObj::Int(3).count().err().unwrap();
    assert_eq!(e.get_uid(), "jsonc-count-fail");
    assert_eq!(e.get_info(), "jsonc is neither object or array");
}

#[test]
fn add_then_get_reads_back_the_value() {
    let mut o = JsoncObj::new();
    o.add("name", "IoT.bzh").unwrap();
    o.add("count", 42i64).unwrap();
    o.add("flag", true).unwrap();
    let name: String = o.get("name").unwrap();
    assert_eq!(name, "IoT.bzh");
    let count: i64 = o.get("count").unwrap();
    assert_eq!(count, 42);
    let flag: bool = o.get("flag").unwrap();
    assert!(flag);
    assert_eq!(o.count().ok(), Some(3));
}

#[test]
fn add_on_an_existing_key_replaces_in_place() {
    let mut o = JsoncObj::new();
    o.add("a", 1i64).unwrap();
    o.add("b", 2i64).unwrap();
    o.add("a", 3i64).unwrap();
    assert_eq!(o.count().ok(), Some(2));
    let a: i64 = o.get("a").unwrap();
    let b: i64 = o.get("b").unwrap();
    assert_eq!((a, b), (3, 2));
    assert_eq!(o.to_json_text(), "{\"a\":3,\"b\":2}");
}

#[test]
fn add_on_a_non_object_fails_and_keeps_it() {
    let mut a = JsoncObj::array();
    let e = a.add("k", 1i64).err().unwrap();
    assert_eq!(e.get_uid(), "jsonc-add-fail");
    assert_eq!(e.get_info(), "jsonc target is not an object");
    assert_eq!(a.len().ok(), Some(0));
}

#[test]
fn get_of_a_missing_key_names_the_key() {
    let o = obj(vec![("x", JsoncObj::Int(1))]);
    let e = o.get::<i64>("y").err().unwrap();
    assert_eq!(e.get_uid(), "jsonc-key-missing");
    assert_eq!(e.get_info(), "y");
}

#[test]
fn get_of_the_wrong_type_is_an_error() {
    let o = obj(vec![("x", text("abc"))]);
    let e = o.get::<i64>("x").err().unwrap();
    assert_eq!(e.get_uid(), "jsonc-get-type");
    assert_eq!(e.get_info(), "jsonc object is not an integer");
    let e = o.get::<bool>("x").err().unwrap();
    assert_eq!(e.get_info(), "jsonc object is not boolean");
    let e = JsoncObj::Int(1).get_as::<String>().err().unwrap();
    assert_eq!(e.get_info(), "jsonc object is not a string");
    let e = text("1").get_as::<u64>().err().unwrap();
    assert_eq!(e.get_info(), "jsonc object is not an unsigned");
}

#[test]
fn small_integers_are_range_checked() {
    let o = obj(vec![("big", JsoncObj::Int(300)), ("neg", JsoncObj::Int(-1)), ("ok", JsoncObj::Int(200))]);
    let e = o.get::<u8>("big").err().unwrap();
    assert_eq!(e.get_uid(), "jsonc::get<u8>");
    assert_eq!(e.get_info(), "multiplier should be u8 get:300");
    let e = o.get::<u16>("neg").err().unwrap();
    assert_eq!(e.get_uid(), "jsonc::get<u16>");
    assert_eq!(e.get_info(), "multiplier should be u16 get:-1");
    let e = o.get::<i8>("ok").err().unwrap();
    assert_eq!(e.get_info(), "multiplier should be i8 get:200");
    let v: u8 = o.get("ok").unwrap();
    assert_eq!(v, 200);
    let e = obj(vec![("x", JsoncObj::Int(40000))]).get::<i16>("x").err().unwrap();
    assert_eq!(e.get_uid(), "jsonc::get<i16>");
    assert_eq!(e.get_info(), "multiplier should be i16 get:40000");
}

#[test]
fn wide_integers_saturate_to_i32() {
    let big = JsoncObj::Int(5_000_000_000);
    assert_eq!(big.get_as::<i32>().unwrap(), i32::MAX);
    assert_eq!(JsoncObj::Int(-5_000_000_000).get_as::<i32>().unwrap(), i32::MIN);
    assert_eq!(big.get_as::<u32>().unwrap(), i32::MAX as u32);
    assert_eq!(JsoncObj::Int(-1).get_as::<u64>().unwrap(), u64::MAX);
}

#[test]
fn typed_values_roundtrip() {
    let mut a = JsoncObj::array();
    a.append(u64::MAX).unwrap();
    a.append(-7i32).unwrap();
    a.append(65535u16).unwrap();
    a.append(-128i8).unwrap();
    a.append(255u8).unwrap();
    a.append(-32768i16).unwrap();
    a.append(7u32).unwrap();
    a.append(false).unwrap();
    assert_eq!(a.index::<u64>(0).unwrap(), u64::MAX);
    assert_eq!(a.index::<i32>(1).unwrap(), -7);
    assert_eq!(a.index::<u16>(2).unwrap(), 65535);
    assert_eq!(a.index::<i8>(3).unwrap(), -128);
    assert_eq!(a.index::<u8>(4).unwrap(), 255);
    assert_eq!(a.index::<i16>(5).unwrap(), -32768);
    assert_eq!(a.index::<u32>(6).unwrap(), 7);
    assert!(!a.index::<bool>(7).unwrap());
}

#[test]
fn u32_above_i32_reads_back_saturated() {
    let mut a = JsoncObj::array();
    a.append(3_000_000_000u32).unwrap();
    assert_eq!(a.index::<u32>(0).unwrap(), i32::MAX as u32);
}

#[test]
fn default_and_optional_cover_missing_keys() {
    let o = obj(vec![("x", JsoncObj::Int(5))]);
    assert_eq!(o.default::<i64>("x", 9).unwrap(), 5);
    assert_eq!(o.default::<i64>("y", 9).unwrap(), 9);
    assert_eq!(o.optional::<i64>("x").unwrap(), Some(5));
    assert_eq!(o.optional::<i64>("y").unwrap(), None);
    let e = o.optional::<String>("x").err().unwrap();
    assert_eq!(e.get_uid(), "jsonc-get-type");
}

#[test]
fn index_reads_null_one_past_the_end() {
    let mut a = JsoncObj::array();
    a.append(1i64).unwrap();
    a.append(2i64).unwrap();
    assert_eq!(a.index::<i64>(1).unwrap(), 2);
    let past = a.index::<JsoncObj>(2).unwrap();
    assert_eq!(past.get_type(), Jtype::Null);
    let e = a.index::<JsoncObj>(3).err().unwrap();
    assert_eq!(e.get_uid(), "jsonc-array-size");
    assert_eq!(e.get_info(), "jsonc array index out of bound");
}

#[test]
fn append_then_index_at_former_length() {
    let mut a = JsoncObj::array();
    a.append("one").unwrap();
    let before = a.len().unwrap();
    a.append("two").unwrap();
    assert_eq!(a.index::<String>(before).unwrap(), "two");
}

#[test]
fn insert_pads_with_nulls_and_replaces_in_place() {
    let mut a = JsoncObj::array();
    a.insert(2, 7i64).unwrap();
    assert_eq!(a.to_json_text(), "[null,null,7]");
    a.insert(0, 1i64).unwrap();
    assert_eq!(a.to_json_text(), "[1,null,7]");
    assert_eq!(a.index::<i64>(2).unwrap(), 7);
    a.insert(usize::MAX, 5i64).unwrap();
    assert_eq!(a.len().ok(), Some(3));
}

#[test]
fn insert_and_append_on_an_object_fail() {
    let mut o = JsoncObj::new();
    let e = o.insert(0, 1i64).err().unwrap();
    assert_eq!(e.get_uid(), "jsonc-insert-fail");
    assert_eq!(e.get_info(), "jsonc target is not an array");
    let e = o.append(1i64).err().unwrap();
    assert_eq!(e.get_uid(), "jsonc-append-fail");
    assert_eq!(e.get_info(), "jsonc target is not an array");
}

#[test]
fn text_form_escapes_strings() {
    let o = obj(vec![("k", text("a\"b\\c\nd\u{1}"))]);
    assert_eq!(o.to_json_text(), "{\"k\":\"a\\\"b\\\\c\\nd\\u0001\"}");
    let nested = obj(vec![
        ("arr", JsoncObj::Array(vec![JsoncObj::Bool(true), JsoncObj::Null, JsoncObj::Float("1.5".to_string())])),
        ("n", JsoncObj::Int(-12)),
    ]);
    assert_eq!(nested.to_json_text(), "{\"arr\":[true,null,1.5],\"n\":-12}");
    let mut out = String::from(">");
    JsoncObj::Int(0).write_json(&mut out);
    assert_eq!(out, ">0");
}

#[test]
fn expand_lists_members_in_order() {
    let o = obj(vec![("b", JsoncObj::Int(1)), ("a", JsoncObj::Int(2))]);
    let members = o.expand().unwrap();
    let keys: Vec<String> = members.iter().map(|e| e.key.clone()).collect();
    assert_eq!(keys, vec!["b".to_string(), "a".to_string()]);
    assert!(JsoncObj::Int(1).expand().unwrap().is_empty());
}

#[test]
fn clone_and_same_value() {
    let o = obj(vec![("a", JsoncObj::Array(vec![JsoncObj::Int(1), text("x")]))]);
    let c = o.clone();
    assert!(o.same_value(&c));
    assert!(!o.same_value(&JsoncObj::new()));
    assert!(!JsoncObj::Int(1).same_value(&JsoncObj::Int(2)));
}

#[test]
fn get_jso_value_splits_by_type() {
    assert!(matches!(JsoncObj::Int(4).get_jso_value(), Jobject::Int(4)));
    assert!(matches!(text("s").get_jso_value(), Jobject::String(ref s) if s == "s"));
    assert!(matches!(JsoncObj::Null.get_jso_value(), Jobject::Null()));
    assert!(matches!(JsoncObj::new().get_jso_value(), Jobject::Object(_)));
    let e = JsoncObj::Null.get_as::<Jobject>().err().unwrap();
    assert_eq!(e.get_uid(), "jsonc-get-key");
    assert_eq!(e.get_info(), "not object at key");
}

#[test]
fn contains_accepts_a_subset() {
    let recv = obj(vec![("a", JsoncObj::Int(1)), ("b", text("x")), ("c", JsoncObj::Bool(true))]);
    assert!(recv.contains(obj(vec![("b", text("x"))])).is_ok());
    assert!(recv.contains(recv.clone()).is_ok());
    assert!(recv.contains(JsoncObj::Int(3)).is_ok());
    let e = recv.contains(obj(vec![("b", text("y"))])).err().unwrap();
    assert_eq!(e.get_uid(), "jsonc-contains-fail");
    assert_eq!(e.get_info(), "json-token-not-found");
    let e = recv.contains(obj(vec![("z", JsoncObj::Int(1))])).err().unwrap();
    assert_eq!(e.get_uid(), "jsonc-key-missing");
    assert_eq!(e.get_info(), "z");
}

#[test]
fn equal_matches_a_value_with_itself() {
    let v = obj(vec![("a", JsoncObj::Array(vec![JsoncObj::Int(1), text("x")])), ("b", JsoncObj::Bool(false))]);
    assert!(v.equal("top", v.clone(), Jequal::Full).is_ok());
    assert!(v.equal("top", v.clone(), Jequal::Partial).is_ok());
}

#[test]
fn equal_reports_a_type_mismatch() {
    let e = JsoncObj::Int(1).equal("u", text("1"), Jequal::Full).err().unwrap();
    assert_eq!(e.get_uid(), "u");
    assert_eq!(e.get_info(), "jsonc-match invalid type received:Int expected:String");
}

#[test]
fn equal_reports_a_value_mismatch() {
    let e = JsoncObj::Int(1).equal("u", JsoncObj::Int(2), Jequal::Full).err().unwrap();
    assert_eq!(e.get_info(), "jsonc-match invalid value received:1 expected:2");
    let e = JsoncObj::Null.equal("n", JsoncObj::Null, Jequal::Full).err().unwrap();
    assert_eq!(e.get_info(), "jsonc-match invalid value received:null expected:null");
}

#[test]
fn equal_labels_array_slots() {
    let recv = JsoncObj::Array(vec![JsoncObj::Int(1), JsoncObj::Int(5)]);
    let exp = JsoncObj::Array(vec![JsoncObj::Int(1), JsoncObj::Int(2)]);
    let e = recv.equal("arr", exp, Jequal::Full).err().unwrap();
    assert_eq!(e.get_uid(), "arr:1");
}

#[test]
fn equal_partial_and_full_objects() {
    let recv = obj(vec![("a", JsoncObj::Int(1)), ("b", JsoncObj::Int(2))]);
    let exp = obj(vec![("a", JsoncObj::Int(1))]);
    assert!(recv.equal("o", exp.clone(), Jequal::Partial).is_ok());
    let e = recv.equal("o", exp, Jequal::Full).err().unwrap();
    assert_eq!(e.get_uid(), "o");
    assert_eq!(e.get_info(), "jsonc-match fail to find key:b expected:{\"a\":1}");
    let e = exp_missing().equal("o", obj(vec![("c", JsoncObj::Int(1))]), Jequal::Partial).err().unwrap();
    assert_eq!(e.get_info(), "jsonc-match fail to find key:c query:{\"a\":1}");
}

fn exp_missing() -> JsoncObj {
    obj(vec![("a", JsoncObj::Int(1))])
}

#[test]
fn equal_member_mismatch_is_labelled_by_key() {
    let recv = obj(vec![("a", JsoncObj::Int(1))]);
    let e = recv.equal("o", obj(vec![("a", JsoncObj::Int(3))]), Jequal::Partial).err().unwrap();
    assert_eq!(e.get_uid(), "a");
}

#[test]
fn bytes_to_str_checks_utf8() {
    assert_eq!(bytes_to_str(b"hello").unwrap(), "hello");
    let e = bytes_to_str(&[0xff, 0xfe]).err().unwrap();
    assert_eq!(e.get_uid(), "bytes_to_str");
    assert_eq!(e.get_info(), "not a valid UTF string");
}

#[test]
fn vec_u8_reads_the_utf8_bytes() {
    let v: Vec<u8> = text("é").get_as().unwrap();
    assert_eq!(v, vec![0xc3, 0xa9]);
}

#[test]
fn static_str_read_keeps_the_text() {
    let s: &'static str = text("kept").get_as().unwrap();
    assert_eq!(s, "kept");
    assert_eq!(afbv4::jsonc::to_static_str("leaked".to_string()), "leaked");
}

#[test]
fn from_builds_an_integer() {
    assert_eq!(JsoncObj::from(12i64).get_as::<i64>().unwrap(), 12);
}

#[test]
fn trait_readers_and_writers() {
    let o = obj(vec![("k", JsoncObj::Int(8))]);
    let found = <JsoncObj as ImportJso<&str>>::get_jso("k", &o).unwrap();
    assert_eq!(<JsoncObj as JsoncExport<i64>>::from_jso(&found).unwrap(), 8);
    assert_eq!(<JsoncObj as DoPutJso<i64>>::put_jso(&found).unwrap(), 8);
    let e = <JsoncObj as DoGetJso<&str>>::get_jso("nope", &o).err().unwrap();
    assert_eq!(e.get_uid(), "jconc-key-missing");
    assert_eq!(e.get_info(), "nope");
    let arr = JsoncObj::Array(vec![JsoncObj::Int(4)]);
    let item = <JsoncObj as DoGetJso<usize>>::get_jso(0, &arr).unwrap();
    assert_eq!(item.get_as::<i64>().unwrap(), 4);
    let mut o2 = JsoncObj::new();
    <JsoncObj as DoAddon<i64>>::add(&mut o2, "v", 3);
    assert_eq!(o2.get::<i64>("v").unwrap(), 3);
    let mut a2 = JsoncObj::array();
    <JsoncObj as DoAddon<bool>>::insert(&mut a2, true);
    <JsoncObj as JsonImport<i64>>::insert(&mut a2, 3, 9);
    assert_eq!(a2.to_json_text(), "[true,null,null,9]");
}

#[test]
fn json_text_is_told_by_its_first_character() {
    assert!(afbv4::jsonc::is_json_text("{'a':1}"));
    assert!(afbv4::jsonc::is_json_text("[1]"));
    assert!(!afbv4::jsonc::is_json_text("plain"));
    assert!(!afbv4::jsonc::is_json_text(""));
    let v = afbv4::jsonc::import_plain_text("plain").unwrap();
    assert_eq!(v.get_as::<String>().unwrap(), "plain");
}

#[test]
fn new_json() {
    let jsonc = JsoncObj::new();
    assert!(jsonc.is_type(Jtype::Object), "object invalid");
    let jsonc = JsoncObj::from(4);
    assert!(jsonc.is_type(Jtype::Int), "object not an int");
    let jsonc = JsoncObj::Float("123.456".to_string());
    assert!(jsonc.is_type(Jtype::Float), "object not a float");
    let jsonc = JsoncObj::from("toto titi tata");
    assert!(jsonc.is_type(Jtype::String), "object not a string");
    assert_eq!(jsonc.get_as::<String>().unwrap(), "toto titi tata");
    let owned = String::from("owned");
    assert_eq!(JsoncObj::from(&owned).get_as::<String>().unwrap(), "owned");
}

#[test]
fn get_from_object() {
    let value1 = 123i64;
    let value3 = "toto";
    let mut jsonc = JsoncObj::new();
    jsonc.add("slot1", value1).unwrap();
    jsonc.add("slot2", JsoncObj::Float("123.456".to_string())).unwrap();
    jsonc.add("slot3", value3).unwrap();
    jsonc.add("slot4", JsoncObj::new()).unwrap();
    jsonc.add("slot5", JsoncObj::array()).unwrap();
    assert!(matches!(jsonc.get_type(), Jtype::Object));
    assert_eq!(jsonc.get::<i64>("slot1").unwrap(), value1);
    assert_eq!(jsonc.get::<String>("slot3").unwrap(), value3);
    let labels = ["slot1", "slot2", "slot3", "slot4", "slot5"];
    for key in labels {
        match jsonc.get::<Jobject>(key).unwrap() {
            Jobject::Int(value) => assert!(value == value1 && key == "slot1"),
            Jobject::Float(value) => assert!(value == "123.456" && key == "slot2"),
            Jobject::String(value) => assert!(value == value3 && key == "slot3"),
            Jobject::Object(value) => assert!(value.is_type(Jtype::Object) && key == "slot4"),
            Jobject::Array(value) => assert!(value.is_type(Jtype::Array) && key == "slot5"),
            _ => panic!("invalid jsonc type"),
        }
    }
}

#[test]
fn get_from_array() {
    let value1 = 123i64;
    let value3 = "toto";
    let mut jsonc = JsoncObj::array();
    jsonc.append(value1).unwrap();
    jsonc.append(JsoncObj::Float("123.456".to_string())).unwrap();
    jsonc.append(value3).unwrap();
    jsonc.append(JsoncObj::new()).unwrap();
    jsonc.append(JsoncObj::array()).unwrap();
    assert!(matches!(jsonc.get_type(), Jtype::Array));
    assert_eq!(jsonc.index::<i64>(0).unwrap(), value1);
    assert_eq!(jsonc.index::<String>(2).unwrap(), value3);
    assert_eq!(jsonc.count().unwrap(), 5);
    for idx in 0..jsonc.count().unwrap() {
        match jsonc.index::<Jobject>(idx).unwrap() {
            Jobject::Int(value) => assert!(value == value1 && idx == 0),
            Jobject::Float(value) => assert!(value == "123.456" && idx == 1),
            Jobject::String(value) => assert!(value == value3 && idx == 2),
            Jobject::Object(value) => assert!(value.is_type(Jtype::Object) && idx == 3),
            Jobject::Array(value) => assert!(value.is_type(Jtype::Array) && idx == 4),
            _ => panic!("invalid jsonc type"),
        }
    }
}
