//! Writing the implementation that equips a struct with the construction
//! operation, as Rust source text.
use vstd::prelude::*;
use vstd::string::StringExecFns;
use crate::syntax::{FieldDef, StructDef, field_view, fields_view, is_type, parse_struct};

verus! {

/// Why a definition cannot be given the construction operation.
#[derive(Debug, PartialEq, Eq, Structural, Clone, Copy)]
pub enum GenerateError {
    /// The directive's argument is not a type.
    NotAType,
    /// The annotated item is not a struct definition.
    NotAStruct,
    /// The annotated struct has positional fields, or none.
    UnnamedFields,
}

impl GenerateError {
    /// A message that names the violated constraint.
    pub fn message(&self) -> (r: &'static str)
        ensures
            r@ == error_message(*self),
    {
        match self {
            GenerateError::NotAType => "Pass in the name of the enum that contains the values to be assigned to this structure.",
            GenerateError::NotAStruct => "This attribute should only be attached to a struct definition",
            GenerateError::UnnamedFields => "This library can only convert from iterator to structs with named fields",
        }
    }
}

pub open spec fn error_message(e: GenerateError) -> Seq<char> {
    match e {
        GenerateError::NotAType => "Pass in the name of the enum that contains the values to be assigned to this structure."@,
        GenerateError::NotAStruct => "This attribute should only be attached to a struct definition"@,
        GenerateError::UnnamedFields => "This library can only convert from iterator to structs with named fields"@,
    }
}

/// The decimal digit `d` as text.
pub open spec fn digit_text(d: nat) -> Seq<char> {
    if d == 0 { "0"@ }
    else if d == 1 { "1"@ }
    else if d == 2 { "2"@ }
    else if d == 3 { "3"@ }
    else if d == 4 { "4"@ }
    else if d == 5 { "5"@ }
    else if d == 6 { "6"@ }
    else if d == 7 { "7"@ }
    else if d == 8 { "8"@ }
    else { "9"@ }
}

/// `n` written in decimal, without leading zeros.
pub open spec fn decimal(n: nat) -> Seq<char>
    decreases n,
{
    if n < 10 {
        digit_text(n)
    } else {
        decimal(n / 10) + digit_text(n % 10)
    }
}

/// The initialiser of one field: the value stored under the field's name,
/// converted to the field's type from the source type.
pub open spec fn field_init_text(source_type: Seq<char>, f: (Seq<char>, Seq<char>)) -> Seq<char> {
    "            "@ + f.0 + ": <"@ + f.1 + " as std::convert::TryFrom<"@ + source_type
        + ">>::try_from(value_storage.remove(\""@ + f.0
        + "\").expect(\"The iterator passed to the create_struct function should yield values for every field in the base struct\")).expect(\"The variant of InnerIteratorType passed to TryFrom should always succeed in conversion, but it failed unexpectedly\"),\n"@
}

/// The initialisers of all fields, in declared order.
pub open spec fn field_inits_text(source_type: Seq<char>, fs: Seq<(Seq<char>, Seq<char>)>) -> Seq<char>
    decreases fs.len(),
{
    if fs.len() == 0 {
        Seq::empty()
    } else {
        field_inits_text(source_type, fs.drop_last()) + field_init_text(source_type, fs.last())
    }
}

/// The implementation block for struct `name` with fields `fs`, whose values
/// come from a sequence of `source_type`.
pub open spec fn impl_text(source_type: Seq<char>, name: Seq<char>, fs: Seq<(Seq<char>, Seq<char>)>) -> Seq<char> {
    let n = decimal(fs.len());
    "impl SpecifyCreatableStruct for "@ + name + " {\n    type InnerIteratorType = "@ + source_type
        + ";\n    type Error = &'static str;\n    fn create_struct(seed_iterator: &mut dyn Iterator<Item = NamedField<Self::InnerIteratorType>>) -> Result<Self, &'static str> {\n        let mut value_storage: std::collections::HashMap<String, Self::InnerIteratorType> = std::collections::HashMap::with_capacity("@
        + n + ");\n        let mut looper: usize = 0;\n        while looper < "@ + n
        + " {\n            let next_value_pair = if let Some(next) = seed_iterator.next() {\n                next\n            } else {\n                return Err(\"The given iterator should contain enough values to fill the implementing structure\");\n            };\n            value_storage.insert(next_value_pair.name, next_value_pair.wrapped_value);\n            looper += 1;\n        }\n        Ok("@
        + name + " {\n"@ + field_inits_text(source_type, fs) + "        })\n    }\n}\n"@
}

/// What generation emits for definition text `item`: the definition as it
/// stands, then the implementation block.
pub open spec fn expansion_text(source_type: Seq<char>, item: Seq<char>, name: Seq<char>, fs: Seq<(Seq<char>, Seq<char>)>) -> Seq<char> {
    item + "\n"@ + impl_text(source_type, name, fs)
}

/// What generation gives for a definition that reads as `def`.
pub open spec fn expansion(
    source_type: Seq<char>,
    item: Seq<char>,
    def: (Seq<char>, Option<Seq<(Seq<char>, Seq<char>)>>),
) -> Result<Seq<char>, GenerateError> {
    match def.1 {
        Some(fs) => Ok(expansion_text(source_type, item, def.0, fs)),
        None => Err(GenerateError::UnnamedFields),
    }
}

fn digit_str(d: usize) -> (r: &'static str)
    requires
        d < 10,
    ensures
        r@ == digit_text(d as nat),
{
    if d == 0 { "0" }
    else if d == 1 { "1" }
    else if d == 2 { "2" }
    else if d == 3 { "3" }
    else if d == 4 { "4" }
    else if d == 5 { "5" }
    else if d == 6 { "6" }
    else if d == 7 { "7" }
    else if d == 8 { "8" }
    else { "9" }
}

/// `n` in decimal.
pub fn decimal_text(n: usize) -> (r: String)
    ensures
        r@ == decimal(n as nat),
    decreases n,
{
    if n < 10 {
        String::from_str(digit_str(n))
    } else {
        let mut s = decimal_text(n / 10);
        s.append(digit_str(n % 10));
        s
    }
}

/// The initialiser of one field.
pub fn field_init(source_type: &str, f: &FieldDef) -> (r: String)
    ensures
        r@ == field_init_text(source_type@, field_view(*f)),
{
    let mut s = String::from_str("            ");
    s.append(f.name.as_str());
    s.append(": <");
    s.append(f.ty.as_str());
    s.append(" as std::convert::TryFrom<");
    s.append(source_type);
    s.append(">>::try_from(value_storage.remove(\"");
    s.append(f.name.as_str());
    s.append("\").expect(\"The iterator passed to the create_struct function should yield values for every field in the base struct\")).expect(\"The variant of InnerIteratorType passed to TryFrom should always succeed in conversion, but it failed unexpectedly\"),\n");
    s
}

/// The implementation block that gives struct `name`, with fields `fields`,
/// the construction operation over a sequence of `source_type`.
pub fn impl_block(source_type: &str, name: &String, fields: &Vec<FieldDef>) -> (r: String)
    ensures
        r@ == impl_text(source_type@, name@, fields_view(fields@)),
{
    let n = decimal_text(fields.len());
    let mut s = String::from_str("impl SpecifyCreatableStruct for ");
    s.append(name.as_str());
    s.append(" {\n    type InnerIteratorType = ");
    s.append(source_type);
    s.append(";\n    type Error = &'static str;\n    fn create_struct(seed_iterator: &mut dyn Iterator<Item = NamedField<Self::InnerIteratorType>>) -> Result<Self, &'static str> {\n        let mut value_storage: std::collections::HashMap<String, Self::InnerIteratorType> = std::collections::HashMap::with_capacity(");
    s.append(n.as_str());
    s.append(");\n        let mut looper: usize = 0;\n        while looper < ");
    s.append(n.as_str());
    s.append(" {\n            let next_value_pair = if let Some(next) = seed_iterator.next() {\n                next\n            } else {\n                return Err(\"The given iterator should contain enough values to fill the implementing structure\");\n            };\n            value_storage.insert(next_value_pair.name, next_value_pair.wrapped_value);\n            looper += 1;\n        }\n        Ok(");
    s.append(name.as_str());
    s.append(" {\n");
    let ghost fs = fields_view(fields@);
    let ghost head = s@;
    let mut i: usize = 0;
    while i < fields.len()
        invariant
            i <= fields@.len(),
            fs == fields_view(fields@),
            s@ == head + field_inits_text(source_type@, fs.take(i as int)),
        decreases fields@.len() - i,
    {
        let init = field_init(source_type, &fields[i]);
        s.append(init.as_str());
        proof {
            assert(fs.take(i as int + 1).drop_last() =~= fs.take(i as int));
            assert(fs.take(i as int + 1).last() == field_view(fields@[i as int]));
            assert(s@ =~= head + field_inits_text(source_type@, fs.take(i as int + 1)));
        }
        i = i + 1;
    }
    s.append("        })\n    }\n}\n");
    proof {
        assert(fs.take(fields@.len() as int) =~= fs);
        assert(s@ =~= impl_text(source_type@, name@, fs));
    }
    s
}

/// The text generated for definition `item`, which reads as `def`: the
/// definition itself followed by the implementation block, or the reason why
/// none can be written.
pub fn expand(source_type: &str, item: &str, def: &StructDef) -> (r: Result<String, GenerateError>)
    ensures
        match r {
            Ok(s) => expansion(source_type@, item@, def@) == Ok::<Seq<char>, GenerateError>(s@),
            Err(e) => expansion(source_type@, item@, def@) == Err::<Seq<char>, GenerateError>(e),
        },
{
    match &def.fields {
        Some(fields) => {
            let mut s = String::from_str(item);
            s.append("\n");
            let block = impl_block(source_type, &def.name, fields);
            s.append(block.as_str());
            Ok(s)
        },
        None => Err(GenerateError::UnnamedFields),
    }
}

/// The text generated for definition `item`, given what reading it gave:
/// whether the directive's argument is a type, and the definition read as a
/// struct, if it is one.
pub fn expand_parsed(source_type: &str, is_type: bool, item: &str, parsed: &Option<StructDef>) -> (r:
    Result<String, GenerateError>)
    ensures
        !is_type ==> r == Err::<String, GenerateError>(GenerateError::NotAType),
        is_type ==> match parsed {
            None => r == Err::<String, GenerateError>(GenerateError::NotAStruct),
            Some(def) => match r {
                Ok(s) => expansion(source_type@, item@, def@) == Ok::<Seq<char>, GenerateError>(s@),
                Err(e) => expansion(source_type@, item@, def@) == Err::<Seq<char>, GenerateError>(e),
            },
        },
{
    if !is_type {
        return Err(GenerateError::NotAType);
    }
    match parsed {
        Some(def) => expand(source_type, item, def),
        None => Err(GenerateError::NotAStruct),
    }
}

/// Equips the struct definition `item` with the construction operation over a
/// sequence of `source_type`: the definition as it stands, then the
/// implementation block for the struct's name and fields as syn reads them.
pub fn iter_convertable(source_type: &str, item: &str) -> (r: Result<String, GenerateError>)
    ensures
        match r {
            Ok(s) => {
                &&& s@.take(item@.len() + 1int) == item@ + "\n"@
                &&& exists|name: Seq<char>, fs: Seq<(Seq<char>, Seq<char>)>|
                    s@ == expansion_text(source_type@, item@, name, fs)
            },
            Err(_) => true,
        },
{
    let type_ok = is_type(source_type);
    let parsed = parse_struct(item);
    let r = expand_parsed(source_type, type_ok, item, &parsed);
    proof {
        if r is Ok {
            let out = r->Ok_0@;
            let def = parsed->Some_0@;
            let fs = def.1->Some_0;
            assert(out == expansion_text(source_type@, item@, def.0, fs));
            reveal_strlit("\n");
            let head = item@ + "\n"@;
            assert(head.len() == item@.len() + 1);
            assert(out == head + impl_text(source_type@, def.0, fs));
            assert(out.take(item@.len() + 1int) =~= head);
        }
    }
    r
}

} // verus!
