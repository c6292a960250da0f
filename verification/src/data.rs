//! Status codes of verb replies, and which arguments of a reply or a
//! request can be read.

use crate::error::{afb_error_info, err_view, error_info_text, AfbError, AfbErrorView};
use crate::text::{int_text, nat_text, push_i64, push_str, push_u64};
use vstd::prelude::*;

verus! {

/// Status of a successful reply.
pub const AFB_OK: i32 = 0;

/// Status of a failed check.
pub const AFB_FAIL: i32 = 1;

/// Status of an aborted call.
pub const AFB_ABORT: i32 = -1;

/// An argument index can be read among `count` arguments: from the start,
/// or, counted from the end, the one before last.
pub open spec fn index_ok(index: i32, count: u32) -> bool {
    ||| 0 <= index < count
    ||| index < 0 && -index == count - 1
}

/// Checks an argument index against the number of arguments; the error
/// is that number.
pub fn check_index(index: i32, count: u32) -> (r: Result<(), u32>)
    requires
        index != i32::MIN,
    ensures
        index_ok(index, count) ==> r is Ok,
        !index_ok(index, count) ==> r == Err::<(), u32>(count),
{
    let c = count as i64;
    let i = index as i64;
    if i >= 0 && i < c {
        Ok(())
    } else if i < 0 && -i == c - 1 {
        Ok(())
    } else {
        Err(count)
    }
}

/// Error when an argument past the last one is read.
pub open spec fn arg_index_error(index: nat, count: nat) -> AfbErrorView {
    err_view("AfbRqtData.get"@, "invalid argument index ask:"@ + nat_text(index + 1) + " max:"@ + nat_text(count))
}

/// The decimal text of a number holds no NUL character.
pub proof fn lemma_nat_text_no_nul(n: nat)
    ensures
        crate::jsonc::no_nul(nat_text(n)),
    decreases n,
{
    if n >= 10 {
        lemma_nat_text_no_nul(n / 10);
    }
}

/// The error of reading argument `index` among `count`.
pub fn index_error(index: usize, count: u32) -> (r: AfbError)
    requires
        index < usize::MAX,
    ensures
        r@ == arg_index_error(index as nat, count as nat),
        crate::jsonc::no_nul(r@.uid),
        crate::jsonc::no_nul(r@.info),
{
    let mut msg = String::new();
    push_str(&mut msg, "invalid argument index ask:");
    push_u64(&mut msg, (index + 1) as u64);
    push_str(&mut msg, " max:");
    push_u64(&mut msg, count as u64);
    assert(msg@ =~= "invalid argument index ask:"@ + nat_text((index + 1) as nat) + " max:"@ + nat_text(count as nat));
    proof {
        reveal_strlit("AfbRqtData.get");
        reveal_strlit("invalid argument index ask:");
        reveal_strlit(" max:");
        lemma_nat_text_no_nul((index + 1) as nat);
        lemma_nat_text_no_nul(count as nat);
        let a = "invalid argument index ask:"@;
        let b = nat_text((index + 1) as nat);
        let c = " max:"@;
        let d = nat_text(count as nat);
        assert forall|i: int| 0 <= i < msg@.len() implies msg@[i] != '\0' by {
            if i < a.len() {
                assert(msg@[i] == a[i]);
            } else if i < a.len() + b.len() {
                assert(msg@[i] == b[i - a.len()]);
            } else if i < a.len() + b.len() + c.len() {
                assert(msg@[i] == c[i - a.len() - b.len()]);
            } else {
                assert(msg@[i] == d[i - a.len() - b.len() - c.len()]);
            }
        }
    }
    AfbError::msg_string("AfbRqtData.get", msg)
}

/// Error when the arguments of a failed reply are read.
pub open spec fn failed_status_error(status: i32) -> AfbErrorView {
    err_view("AfbRqtData.status"@, "value:"@ + int_text(status as int) + " info:"@ + error_info_text(status))
}

/// The arguments of a reply are read only when its status is not
/// negative.
pub fn status_check(status: i32) -> (r: Result<(), AfbError>)
    ensures
        status >= 0 ==> r is Ok,
        status < 0 ==> r is Err && r->Err_0@ == failed_status_error(status),
{
    if status < 0 {
        let mut msg = String::new();
        push_str(&mut msg, "value:");
        push_i64(&mut msg, status as i64);
        push_str(&mut msg, " info:");
        push_str(&mut msg, afb_error_info(status));
        assert(msg@ =~= "value:"@ + int_text(status as int) + " info:"@ + error_info_text(status));
        Err(AfbError::msg_string("AfbRqtData.status", msg))
    } else {
        Ok(())
    }
}

/// Handle of a data type inside the binder (0 stands for none).
pub type AfbTypeV4 = usize;

/// The data types the binder knows by itself.
#[derive(Debug, Clone, Copy, PartialEq, Eq, Structural)]
pub enum AfbBuiltinType {
    Opaque,
    StringZ,
    Json,
    JsoncObj,
    ByteArray,
    Bool,
    I32,
    U32,
    I64,
    U64,
    Double,
    /// No type at all.
    NoType,
}

/// The handles of the binder's own data types, as its interface hands
/// them out.
#[derive(Debug, Clone, Copy)]
pub struct BuiltinTypes {
    pub opaque: AfbTypeV4,
    pub stringz: AfbTypeV4,
    pub json: AfbTypeV4,
    pub json_c: AfbTypeV4,
    pub bytearray: AfbTypeV4,
    pub bool_type: AfbTypeV4,
    pub i32_type: AfbTypeV4,
    pub u32_type: AfbTypeV4,
    pub i64_type: AfbTypeV4,
    pub u64_type: AfbTypeV4,
    pub double: AfbTypeV4,
}

/// A data type of the binder, under the name the library gives it.
#[derive(Debug, Clone, Copy)]
pub struct AfbConverter {
    pub uid: &'static str,
    pub typev4: AfbTypeV4,
}

/// The name the library gives a builtin type.
pub open spec fn builtin_uid(t: AfbBuiltinType) -> Seq<char> {
    match t {
        AfbBuiltinType::NoType => "Builtin-None"@,
        AfbBuiltinType::Opaque => "Builtin-Opaque"@,
        AfbBuiltinType::StringZ => "Builtin-StringZ"@,
        AfbBuiltinType::Json => "Builtin-Json"@,
        AfbBuiltinType::JsoncObj => "Builtin-JsoncObj"@,
        AfbBuiltinType::ByteArray => "Builtin-ByteArray"@,
        AfbBuiltinType::Bool => "Builtin-Bool"@,
        AfbBuiltinType::I32 => "Builtin-I32"@,
        AfbBuiltinType::U32 => "Builtin-U32"@,
        AfbBuiltinType::I64 => "Builtin-I64"@,
        AfbBuiltinType::U64 => "Builtin-U64"@,
        AfbBuiltinType::Double => "Builtin-Double"@,
    }
}

/// The binder's handle of a builtin type.
pub open spec fn builtin_handle(t: AfbBuiltinType, types: BuiltinTypes) -> AfbTypeV4 {
    match t {
        AfbBuiltinType::NoType => 0,
        AfbBuiltinType::Opaque => types.opaque,
        AfbBuiltinType::StringZ => types.stringz,
        AfbBuiltinType::Json => types.json,
        AfbBuiltinType::JsoncObj => types.json_c,
        AfbBuiltinType::ByteArray => types.bytearray,
        AfbBuiltinType::Bool => types.bool_type,
        AfbBuiltinType::I32 => types.i32_type,
        AfbBuiltinType::U32 => types.u32_type,
        AfbBuiltinType::I64 => types.i64_type,
        AfbBuiltinType::U64 => types.u64_type,
        AfbBuiltinType::Double => types.double,
    }
}

impl AfbBuiltinType {
    /// The converter of a builtin type, from the binder's handles.
    pub fn get(builtin_type: &AfbBuiltinType, types: &BuiltinTypes) -> (r: AfbConverter)
        ensures
            r.uid@ == builtin_uid(*builtin_type),
            r.typev4 == builtin_handle(*builtin_type, *types),
    {
        match builtin_type {
            AfbBuiltinType::NoType => AfbConverter { uid: "Builtin-None", typev4: 0 },
            AfbBuiltinType::Opaque => AfbConverter { uid: "Builtin-Opaque", typev4: types.opaque },
            AfbBuiltinType::StringZ => AfbConverter { uid: "Builtin-StringZ", typev4: types.stringz },
            AfbBuiltinType::Json => AfbConverter { uid: "Builtin-Json", typev4: types.json },
            AfbBuiltinType::JsoncObj => AfbConverter { uid: "Builtin-JsoncObj", typev4: types.json_c },
            AfbBuiltinType::ByteArray => AfbConverter { uid: "Builtin-ByteArray", typev4: types.bytearray },
            AfbBuiltinType::Bool => AfbConverter { uid: "Builtin-Bool", typev4: types.bool_type },
            AfbBuiltinType::I32 => AfbConverter { uid: "Builtin-I32", typev4: types.i32_type },
            AfbBuiltinType::U32 => AfbConverter { uid: "Builtin-U32", typev4: types.u32_type },
            AfbBuiltinType::I64 => AfbConverter { uid: "Builtin-I64", typev4: types.i64_type },
            AfbBuiltinType::U64 => AfbConverter { uid: "Builtin-U64", typev4: types.u64_type },
            AfbBuiltinType::Double => AfbConverter { uid: "Builtin-Double", typev4: types.double },
        }
    }
}

} // verus!
