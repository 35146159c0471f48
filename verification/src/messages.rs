//! The texts of validation errors.
use vstd::prelude::*;
use crate::text::decimal;

verus! {

/// `'name' is defined more than once`
pub open spec fn msg_defined_twice(name: Seq<char>) -> Seq<char> {
    "'"@ + name + "' is defined more than once"@
}

/// `Cannot load import 'path': reason`
pub open spec fn msg_cannot_load(path: Seq<char>, reason: Seq<char>) -> Seq<char> {
    "Cannot load import '"@ + path + "': "@ + reason
}

/// `'name' is private in 'path'`
pub open spec fn msg_private_in(name: Seq<char>, path: Seq<char>) -> Seq<char> {
    "'"@ + name + "' is private in '"@ + path + "'"@
}

/// `'name' is not exported by 'path'`
pub open spec fn msg_not_exported(name: Seq<char>, path: Seq<char>) -> Seq<char> {
    "'"@ + name + "' is not exported by '"@ + path + "'"@
}

/// A tag without a namespace that is not built in.
pub open spec fn msg_unknown_tag(name: Seq<char>) -> Seq<char> {
    "Unknown tag '#"@ + name + "'; custom tags require a namespace prefix (e.g. '#myorg:"@ + name + "')"@
}

/// `#required` or `#optional` outside a struct field.
pub open spec fn msg_struct_only_tag(name: Seq<char>) -> Seq<char> {
    "'#"@ + name + "' is only valid on struct fields"@
}

/// `line:0: Undefined type 'name'`
pub open spec fn msg_undefined_type(line: usize, name: Seq<char>) -> Seq<char> {
    decimal(line as nat) + ":0: Undefined type '"@ + name + "'"@
}

/// `Undefined struct 'base' in copy`
pub open spec fn msg_undefined_struct(base: Seq<char>) -> Seq<char> {
    "Undefined struct '"@ + base + "' in copy"@
}

/// `'base' is not a struct; only structs can be copied`
pub open spec fn msg_not_a_struct(base: Seq<char>) -> Seq<char> {
    "'"@ + base + "' is not a struct; only structs can be copied"@
}

/// `Field 'name' does not exist in struct 'base'`
pub open spec fn msg_missing_excluded(name: Seq<char>, base: Seq<char>) -> Seq<char> {
    "Field '"@ + name + "' does not exist in struct '"@ + base + "'"@
}

/// `Duplicate field 'f' in struct 's'`, followed by ` (from copy of 'base')`
/// when a copy of `base` brought the field in.
pub open spec fn msg_duplicate_field(field: Seq<char>, st: Seq<char>, base: Option<Seq<char>>) -> Seq<char> {
    "Duplicate field '"@ + field + "' in struct '"@ + st + "'"@ + match base {
        Some(b) => " (from copy of '"@ + b + "')"@,
        None => Seq::empty(),
    }
}

/// `Cannot resolve struct 'name' for copy`
pub open spec fn msg_unresolved(name: Seq<char>) -> Seq<char> {
    "Cannot resolve struct '"@ + name + "' for copy"@
}

/// `line:0: Undefined assertion 'name'`
pub open spec fn msg_undefined_assertion(line: usize, name: Seq<char>) -> Seq<char> {
    decimal(line as nat) + ":0: Undefined assertion '"@ + name + "'"@
}

/// A `for` over an enum that is not among the known definitions.
pub open spec fn msg_enum_not_found(line: usize, source: Seq<char>, st: Seq<char>) -> Seq<char> {
    decimal(line as nat) + ":0: Enum '"@ + source + "' not found for assertion on '"@ + st
        + "'; only locally-defined and ^copy-imported enums can be used"@
}

/// `haskey` on a metavariable that no loop binds.
pub open spec fn msg_unbound(line: usize, st: Seq<char>, key: Seq<char>) -> Seq<char> {
    decimal(line as nat) + ":0: In assertion on '"@ + st + "': '$"@ + key + "'  is not bound (not a loop variable)"@
}

/// A `haskey` check that fails.
pub open spec fn msg_missing_field(line: usize, st: Seq<char>, field: Seq<char>) -> Seq<char> {
    decimal(line as nat) + ":0: Assertion failed: struct '"@ + st + "' is missing field '"@ + field + "'"@
}

/// `line:0: 'q' in field key 'name' is not defined`
pub open spec fn msg_qualifier_undefined(line: usize, q: Seq<char>, name: Seq<char>) -> Seq<char> {
    decimal(line as nat) + ":0: '"@ + q + "' in field key '"@ + name + "' is not defined"@
}

/// `line:0: 'case' is not a case of enum 'q'`
pub open spec fn msg_not_a_case(line: usize, case: Seq<char>, q: Seq<char>) -> Seq<char> {
    decimal(line as nat) + ":0: '"@ + case + "' is not a case of enum '"@ + q + "'"@
}

/// `line:0: 'q' in field key 'name' is not an enum`
pub open spec fn msg_not_an_enum(line: usize, q: Seq<char>, name: Seq<char>) -> Seq<char> {
    decimal(line as nat) + ":0: '"@ + q + "' in field key '"@ + name + "' is not an enum"@
}

/// A constant whose name is not SCREAMING_CASE.
pub open spec fn msg_screaming(name: Seq<char>) -> Seq<char> {
    "Constant '"@ + name + "' must be SCREAMING_CASE (e.g. MY_CONSTANT)"@
}

/// `Assertion 'name' is defined more than once`
pub open spec fn msg_assertion_twice(name: Seq<char>) -> Seq<char> {
    "Assertion '"@ + name + "' is defined more than once"@
}

} // verus!
