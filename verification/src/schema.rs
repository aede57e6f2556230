//! The schema: the compiled, immutable description of the expected shape of
//! a directory tree, and the compiler that builds it from a declared record
//! type's fields.

use crate::error::Error;
use crate::error::ErrorKind;
use crate::error::ErrorModel;
use crate::pattern::check_entry_text;
use crate::pattern::valid_entry_text;
use vstd::prelude::*;

verus! {

/// One node of a schema: a typed description of one expected entry.
#[derive(Debug)]
pub enum ShapeItemStatic {
    /// An expected file: identifier and on-disk entry name.
    File(String, String),
    /// An expected pattern-directory: identifier, on-disk entry name, and
    /// the pattern every direct child's name must match.
    DirectoryPattern(String, String, String),
    /// An expected nested shape: identifier, on-disk entry name, and the
    /// schema its contents must conform to.
    DirectorySchema(String, String, Vec<ShapeItemStatic>),
}

/// A schema: an ordered sequence of schema nodes. The order is meaningful:
/// it is the correlation key between a schema and its instance tree.
pub type ShapeSchemaStatic = Vec<ShapeItemStatic>;

/// The identifier of a schema node.
pub open spec fn item_identifier(item: ShapeItemStatic) -> Seq<char> {
    match item {
        ShapeItemStatic::File(id, _) => id@,
        ShapeItemStatic::DirectoryPattern(id, _, _) => id@,
        ShapeItemStatic::DirectorySchema(id, _, _) => id@,
    }
}

/// The on-disk entry name of a schema node.
pub open spec fn item_entry_name(item: ShapeItemStatic) -> Seq<char> {
    match item {
        ShapeItemStatic::File(_, n) => n@,
        ShapeItemStatic::DirectoryPattern(_, n, _) => n@,
        ShapeItemStatic::DirectorySchema(_, n, _) => n@,
    }
}

impl ShapeItemStatic {
    /// The identifier of the schema node: the name the entry is accessed
    /// by in the declared record.
    pub fn identifier(&self) -> (r: &str)
        ensures
            r@ == item_identifier(*self),
    {
        match self {
            ShapeItemStatic::File(id, _) => id.as_str(),
            ShapeItemStatic::DirectoryPattern(id, _, _) => id.as_str(),
            ShapeItemStatic::DirectorySchema(id, _, _) => id.as_str(),
        }
    }

    /// The on-disk entry name of the schema node.
    pub fn entry_name(&self) -> (r: &str)
        ensures
            r@ == item_entry_name(*self),
    {
        match self {
            ShapeItemStatic::File(_, n) => n.as_str(),
            ShapeItemStatic::DirectoryPattern(_, n, _) => n.as_str(),
            ShapeItemStatic::DirectorySchema(_, n, _) => n.as_str(),
        }
    }
}

/// What a field of a declared record may be typed as.
pub enum FieldKind {
    /// The field expects a single file.
    FileField,
    /// The field expects a pattern-directory; it must carry a pattern.
    DirField,
    /// The field expects a nested shape with the given compiled schema.
    NestedField(Vec<ShapeItemStatic>),
}

/// One declared field of a record type, as handed to the schema compiler:
/// its identifier, its kind, and its optional name and pattern annotations.
pub struct FieldDecl {
    /// The field's identifier in the record.
    pub identifier: String,
    /// The field's declared kind.
    pub kind: FieldKind,
    /// The `name` annotation, supplying the on-disk entry name.
    pub entry_name: Option<String>,
    /// The `pattern` annotation; required on `DirField`, refused elsewhere.
    pub pattern: Option<String>,
}

/// The on-disk entry name a field declares: its name annotation, or its
/// identifier when it has none.
pub open spec fn decl_entry_name(f: FieldDecl) -> Seq<char> {
    match f.entry_name {
        Some(n) => n@,
        None => f.identifier@,
    }
}

/// The declaration-time error a field is rejected with, if any: a name
/// annotation that breaks the naming rules, a pattern annotation on a field
/// that is not a pattern-directory, a pattern annotation that breaks the
/// naming rules, or a pattern-directory field without a pattern annotation.
pub open spec fn field_error(f: FieldDecl) -> Option<ErrorModel> {
    if f.entry_name matches Some(n) && !valid_entry_text(n@) {
        Some(
            ErrorModel {
                kind: ErrorKind::InvalidFileName,
                message: "syntax error in name"@,
                path: None,
            },
        )
    } else if f.pattern is Some && !(f.kind is DirField) {
        Some(
            ErrorModel {
                kind: ErrorKind::Other,
                message: "pattern can only be used with Dir fields"@,
                path: None,
            },
        )
    } else if f.pattern matches Some(p) && !valid_entry_text(p@) {
        Some(
            ErrorModel {
                kind: ErrorKind::InvalidFileName,
                message: "syntax error in pattern"@,
                path: None,
            },
        )
    } else if f.kind is DirField && f.pattern is None {
        Some(
            ErrorModel {
                kind: ErrorKind::Other,
                message: "Dir fields must have pattern attribute"@,
                path: None,
            },
        )
    } else {
        None
    }
}

/// The pattern annotation of a field, where it has one.
pub open spec fn decl_pattern(f: FieldDecl) -> Seq<char> {
    match f.pattern {
        Some(p) => p@,
        None => Seq::empty(),
    }
}

/// Whether a schema node is the compilation of a declared field: same
/// identifier, the declared entry name, the node kind the field's kind
/// calls for, and the field's pattern or nested schema carried over.
pub open spec fn compiled_from(item: ShapeItemStatic, f: FieldDecl) -> bool {
    match f.kind {
        FieldKind::FileField => item matches ShapeItemStatic::File(id, n) && id@ == f.identifier@
            && n@ == decl_entry_name(f),
        FieldKind::DirField => f.pattern is Some && (item matches ShapeItemStatic::DirectoryPattern(
            id,
            n,
            p,
        ) && id@ == f.identifier@ && n@ == decl_entry_name(f) && p@ == decl_pattern(f)),
        FieldKind::NestedField(child) => item matches ShapeItemStatic::DirectorySchema(id, n, c)
            && id@ == f.identifier@ && n@ == decl_entry_name(f) && c@ == child@,
    }
}

/// Compile one declared field into its schema node, or reject it with its
/// declaration-time error.
fn compile_field(f: FieldDecl) -> (r: Result<ShapeItemStatic, Error>)
    ensures
        match r {
            Ok(item) => field_error(f) is None && compiled_from(item, f),
            Err(e) => field_error(f) matches Some(em) && e@ == em,
        },
{
    let FieldDecl { identifier, kind, entry_name, pattern } = f;
    let entry: String = match entry_name {
        Some(n) => {
            if !check_entry_text(n.as_str()) {
                return Err(Error::new(ErrorKind::InvalidFileName, "syntax error in name"));
            }
            n
        },
        None => identifier.clone(),
    };
    match kind {
        FieldKind::FileField => {
            if pattern.is_some() {
                return Err(Error::new(ErrorKind::Other, "pattern can only be used with Dir fields"));
            }
            Ok(ShapeItemStatic::File(identifier, entry))
        },
        FieldKind::DirField => {
            match pattern {
                Some(p) => {
                    if !check_entry_text(p.as_str()) {
                        return Err(
                            Error::new(ErrorKind::InvalidFileName, "syntax error in pattern"),
                        );
                    }
                    Ok(ShapeItemStatic::DirectoryPattern(identifier, entry, p))
                },
                None => Err(Error::new(ErrorKind::Other, "Dir fields must have pattern attribute")),
            }
        },
        FieldKind::NestedField(child) => {
            if pattern.is_some() {
                return Err(Error::new(ErrorKind::Other, "pattern can only be used with Dir fields"));
            }
            Ok(ShapeItemStatic::DirectorySchema(identifier, entry, child))
        },
    }
}

/// Compile a declared record type's fields into a schema. Fails with the
/// first field's declaration-time error, before any instance method can
/// run; a compiled schema holds one node per field, in declaration order.
#[verifier::loop_isolation(false)]
pub fn compile_schema(fields: Vec<FieldDecl>) -> (r: Result<ShapeSchemaStatic, Error>)
    ensures
        match r {
            Ok(schema) => {
                &&& schema@.len() == fields@.len()
                &&& forall|i: int|
                    0 <= i < fields@.len() ==> field_error(#[trigger] fields@[i]) is None
                &&& forall|i: int|
                    0 <= i < fields@.len() ==> compiled_from(#[trigger] schema@[i], fields@[i])
            },
            Err(e) => exists|i: int|
                {
                    &&& 0 <= i < fields@.len()
                    &&& field_error(#[trigger] fields@[i]) matches Some(em) && e@ == em
                    &&& forall|j: int| 0 <= j < i ==> field_error(#[trigger] fields@[j]) is None
                },
        },
{
    let ghost all = fields@;
    let mut rest = fields;
    let mut schema: Vec<ShapeItemStatic> = Vec::new();
    while rest.len() > 0
        invariant
            schema@.len() + rest@.len() == all.len(),
            rest@ == all.subrange(schema@.len() as int, all.len() as int),
            forall|j: int| 0 <= j < schema@.len() ==> field_error(#[trigger] all[j]) is None,
            forall|j: int|
                0 <= j < schema@.len() ==> compiled_from(#[trigger] schema@[j], all[j]),
        decreases rest@.len(),
    {
        let ghost done = schema@.len() as int;
        let f = rest.remove(0);
        proof {
            assert(f == all[done]);
            assert(rest@ =~= all.subrange(done + 1, all.len() as int));
        }
        match compile_field(f) {
            Ok(item) => {
                schema.push(item);
            },
            Err(e) => {
                proof {
                    assert(field_error(all[done]) matches Some(em) && e@ == em);
                }
                return Err(e);
            },
        }
    }
    proof {
        assert(schema@.len() == all.len());
    }
    Ok(schema)
}

/// A pattern-directory field declared without a pattern annotation is
/// always rejected at declaration time: it carries a declaration error, so
/// no compiled schema can come from a field list containing it.
pub proof fn lemma_dir_field_needs_pattern(f: FieldDecl)
    requires
        f.kind is DirField,
        f.pattern is None,
    ensures
        field_error(f) is Some,
{
}

} // verus!
