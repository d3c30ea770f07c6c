//! Reading the directive's argument and the annotated definition. Parsing Rust
//! text is left to syn; what generation needs of it is handed on as plain text.
use vstd::prelude::*;
use quote::ToTokens;

verus! {

/// A named field of a struct definition: its name and its declared type.
pub struct FieldDef {
    pub name: String,
    pub ty: String,
}

/// What generation reads of a struct definition.
pub struct StructDef {
    pub name: String,
    /// The fields, in declared order, when they are named; `None` for a tuple
    /// or unit struct.
    pub fields: Option<Vec<FieldDef>>,
}

/// A field as text: its name and its type.
pub open spec fn field_view(f: FieldDef) -> (Seq<char>, Seq<char>) {
    (f.name@, f.ty@)
}

/// The fields as text, in order.
pub open spec fn fields_view(fs: Seq<FieldDef>) -> Seq<(Seq<char>, Seq<char>)> {
    fs.map_values(|f: FieldDef| field_view(f))
}

impl View for StructDef {
    type V = (Seq<char>, Option<Seq<(Seq<char>, Seq<char>)>>);

    open spec fn view(&self) -> Self::V {
        (
            self.name@,
            match self.fields {
                Some(fs) => Some(fields_view(fs@)),
                None => None,
            },
        )
    }
}

/// Relies on `syn::parse_str::<syn::Type>`: whether the text parses as a type.
/// Inside a macro expansion the running compiler's lexer has a say too, so
/// nothing is claimed of the answer.
#[verifier::external_body]
pub(crate) fn is_type(s: &str) -> bool {
    syn::parse_str::<syn::Type>(s).is_ok()
}

/// Relies on `syn::parse_str::<syn::ItemStruct>` to read a struct definition,
/// and on quote's `ToTokens` to print each field's name and type. The printed
/// text depends on whether a compiler is running the macro, so nothing is
/// claimed of the result.
#[verifier::external_body]
pub(crate) fn parse_struct(s: &str) -> Option<StructDef> {
    let item = syn::parse_str::<syn::ItemStruct>(s).ok()?;
    let fields = match item.fields {
        syn::Fields::Named(named) => Some(named.named.iter().map(|f| FieldDef {
            name: f.ident.to_token_stream().to_string(),
            ty: f.ty.to_token_stream().to_string(),
        }).collect()),
        syn::Fields::Unnamed(_) => None,
        syn::Fields::Unit => None,
    };
    Some(StructDef { name: item.ident.to_string(), fields })
}

} // verus!
