//! A mathematical model of a directory tree, with the meaning of
//! instantiation and validation defined over it, and the laws of the shape
//! subsystem proved against that meaning: creating a shape in an empty root
//! then validating it finds nothing, creating twice changes nothing, and
//! validation reports each deviation it should.

use crate::dir::DirEntry;
use crate::outside::is_child_path;
use crate::error::ErrorKind;
use crate::error::ErrorModel;
use crate::error::kind_default_msg;
use crate::path_stuff::join_paths;
use crate::path_stuff::lemma_name_of_join;
use crate::pattern::pattern_match;
use crate::schema::ShapeItemStatic;
use crate::schema::item_entry_name;
use crate::shape::error_from_item;
use crate::shape::error_from_walk;
use crate::shape::pattern_dir_child_error;
use crate::shape::pattern_entry_errors;
use crate::shape::pattern_listing_errors;
use crate::shape::pattern_violation_msg;
use vstd::prelude::*;

verus! {

/// One node of the directory tree model: a file with its contents, or a
/// directory with its entries.
pub enum FsNode {
    /// A file and its contents.
    File { content: Seq<u8> },
    /// A directory and its entries, in listing order.
    Dir { entries: Seq<FsEntry> },
}

/// One named entry of a directory in the model.
pub struct FsEntry {
    /// The entry's name within its directory.
    pub name: Seq<char>,
    /// What the entry is.
    pub node: FsNode,
}

/// The position of the first entry of the given name, or `-1` when no
/// entry has it.
pub open spec fn index_of_name(entries: Seq<FsEntry>, name: Seq<char>) -> int
    decreases entries.len(),
{
    if entries.len() == 0 {
        -1
    } else if entries[0].name == name {
        0
    } else {
        let rest = index_of_name(entries.drop_first(), name);
        if rest == -1 {
            -1
        } else {
            1 + rest
        }
    }
}

/// The node of the first entry of the given name, if any.
pub open spec fn lookup(entries: Seq<FsEntry>, name: Seq<char>) -> Option<FsNode> {
    let i = index_of_name(entries, name);
    if i == -1 {
        None
    } else {
        Some(entries[i].node)
    }
}

/// `index_of_name` names the first entry of the given name: the entry
/// there has it, no earlier entry does, and `-1` means none does.
pub proof fn lemma_index_of_name(entries: Seq<FsEntry>, name: Seq<char>)
    ensures
        -1 <= index_of_name(entries, name) < entries.len(),
        index_of_name(entries, name) >= 0 ==> entries[index_of_name(entries, name)].name == name,
        forall|j: int| 0 <= j < index_of_name(entries, name) ==> entries[j].name != name,
        index_of_name(entries, name) == -1 ==> forall|j: int|
            0 <= j < entries.len() ==> entries[j].name != name,
    decreases entries.len(),
{
    if entries.len() == 0 {
    } else if entries[0].name == name {
    } else {
        lemma_index_of_name(entries.drop_first(), name);
        assert(forall|j: int| 0 <= j < entries.len() - 1 ==> entries[j + 1] == entries.drop_first()[j]);
        assert(forall|j: int| 1 <= j < entries.len() ==> entries[j] == entries.drop_first()[j - 1]);
    }
}

proof fn lemma_index_of_name_push(entries: Seq<FsEntry>, e: FsEntry, name: Seq<char>)
    ensures
        index_of_name(entries, name) >= 0 ==> index_of_name(entries.push(e), name)
            == index_of_name(entries, name),
        index_of_name(entries, name) == -1 && e.name == name ==> index_of_name(
            entries.push(e),
            name,
        ) == entries.len(),
        index_of_name(entries, name) == -1 && e.name != name ==> index_of_name(
            entries.push(e),
            name,
        ) == -1,
{
    lemma_index_of_name(entries, name);
    lemma_index_of_name(entries.push(e), name);
    let i = index_of_name(entries, name);
    let k = index_of_name(entries.push(e), name);
    assert(entries.push(e)[entries.len() as int] == e);
    assert(forall|j: int| 0 <= j < entries.len() ==> entries.push(e)[j] == entries[j]);
    if i >= 0 {
        assert(entries.push(e)[i].name == name);
        if k == -1 {
            assert(entries.push(e)[i].name != name);
            assert(false);
        }
        if 0 <= k < i {
            assert(entries.push(e)[k].name == name);
            assert(entries[k].name != name);
            assert(false);
        }
        if k > i {
            assert(entries.push(e)[i].name != name);
            assert(false);
        }
    } else if e.name == name {
        assert(entries.push(e)[entries.len() as int].name == name);
        if k == -1 {
            assert(entries.push(e)[entries.len() as int].name != name);
            assert(false);
        }
        if 0 <= k < entries.len() {
            assert(entries.push(e)[k].name == name);
            assert(entries[k].name != name);
            assert(false);
        }
    } else {
        if k >= 0 {
            assert(entries.push(e)[k].name == name);
            if k < entries.len() {
                assert(entries[k].name != name);
            } else {
                assert(entries.push(e)[k] == e);
            }
            assert(false);
        }
    }
}

/// Appending an entry leaves every present name where it was and makes the
/// new entry findable under its name where it was absent.
pub proof fn lemma_lookup_push(entries: Seq<FsEntry>, e: FsEntry, name: Seq<char>)
    ensures
        lookup(entries, name) is Some ==> lookup(entries.push(e), name) == lookup(entries, name),
        lookup(entries, name) is None && e.name == name ==> lookup(entries.push(e), name) == Some(
            e.node,
        ),
        lookup(entries, name) is None && e.name != name ==> lookup(
            entries.push(e),
            name,
        ) is None,
{
    lemma_index_of_name_push(entries, e, name);
    lemma_index_of_name(entries, name);
    lemma_index_of_name(entries.push(e), name);
}

proof fn lemma_index_of_name_update(entries: Seq<FsEntry>, i: int, e: FsEntry, name: Seq<char>)
    requires
        0 <= i < entries.len(),
        entries[i].name == e.name,
    ensures
        index_of_name(entries.update(i, e), name) == index_of_name(entries, name),
    decreases entries.len(),
{
    let updated = entries.update(i, e);
    if i == 0 {
        assert(updated[0].name == entries[0].name);
        assert(updated.drop_first() =~= entries.drop_first());
    } else {
        lemma_index_of_name_update(entries.drop_first(), i - 1, e, name);
        assert(updated[0] == entries[0]);
        assert(updated.drop_first() =~= entries.drop_first().update(i - 1, e));
    }
}

/// Replacing the entry at the first position of a name, with an entry of
/// that same name, changes what that name maps to and nothing else.
pub proof fn lemma_lookup_update(entries: Seq<FsEntry>, e: FsEntry, name: Seq<char>)
    requires
        index_of_name(entries, e.name) >= 0,
    ensures
        lookup(entries.update(index_of_name(entries, e.name), e), e.name) == Some(e.node),
        name != e.name ==> lookup(entries.update(index_of_name(entries, e.name), e), name)
            == lookup(entries, name),
{
    let i = index_of_name(entries, e.name);
    lemma_index_of_name(entries, e.name);
    lemma_index_of_name_update(entries, i, e, e.name);
    lemma_index_of_name_update(entries, i, e, name);
    lemma_index_of_name(entries, name);
    lemma_index_of_name(entries.update(i, e), name);
    if name != e.name && index_of_name(entries, name) >= 0 {
        assert(index_of_name(entries, name) != i);
        assert(entries.update(i, e)[index_of_name(entries, name)] == entries[index_of_name(
            entries,
            name,
        )]);
    }
}

/// What instantiating one schema node does to a directory's entries:
/// create the missing entry (an empty file, or an empty directory), leave
/// an existing entry of the right kind untouched, recurse into a nested
/// schema, and fail on an entry of the wrong kind.
pub open spec fn inst_item_model(entries: Seq<FsEntry>, item: ShapeItemStatic) -> Option<
    Seq<FsEntry>,
>
    decreases item,
{
    match item {
        ShapeItemStatic::File(_, n) => match lookup(entries, n@) {
            None => Some(
                entries.push(FsEntry { name: n@, node: FsNode::File { content: Seq::empty() } }),
            ),
            Some(FsNode::File { .. }) => Some(entries),
            Some(FsNode::Dir { .. }) => None,
        },
        ShapeItemStatic::DirectoryPattern(_, n, _) => match lookup(entries, n@) {
            None => Some(entries.push(FsEntry { name: n@, node: FsNode::Dir { entries: Seq::empty() } })),
            Some(FsNode::Dir { .. }) => Some(entries),
            Some(FsNode::File { .. }) => None,
        },
        ShapeItemStatic::DirectorySchema(_, n, c) => {
            let ensured = match lookup(entries, n@) {
                None => Some(
                    entries.push(FsEntry { name: n@, node: FsNode::Dir { entries: Seq::empty() } }),
                ),
                Some(FsNode::Dir { .. }) => Some(entries),
                Some(FsNode::File { .. }) => None,
            };
            match ensured {
                None => None,
                Some(es) => {
                    let i = index_of_name(es, n@);
                    match es[i].node {
                        FsNode::Dir { entries: sub } => match inst_seq_model(sub, c@) {
                            None => None,
                            Some(sub2) => Some(
                                es.update(
                                    i,
                                    FsEntry { name: n@, node: FsNode::Dir { entries: sub2 } },
                                ),
                            ),
                        },
                        FsNode::File { .. } => None,
                    }
                },
            }
        },
    }
}

/// What instantiating a whole schema does to a directory's entries: each
/// node in order, stopping at the first failure.
pub open spec fn inst_seq_model(entries: Seq<FsEntry>, schema: Seq<ShapeItemStatic>) -> Option<
    Seq<FsEntry>,
>
    decreases schema,
{
    if schema.len() == 0 {
        Some(entries)
    } else {
        match inst_item_model(entries, schema[0]) {
            None => None,
            Some(es2) => inst_seq_model(es2, schema.drop_first()),
        }
    }
}

/// The error reporting a missing entry at the given path.
pub open spec fn not_found_err(path: Seq<char>) -> ErrorModel {
    ErrorModel {
        kind: ErrorKind::NotFound,
        message: kind_default_msg(ErrorKind::NotFound),
        path: Some(path),
    }
}

/// The error reporting that a path expected to name a directory names a
/// file instead; it carries no path.
pub open spec fn invalid_folder_plain() -> ErrorModel {
    ErrorModel {
        kind: ErrorKind::InvalidFolder,
        message: kind_default_msg(ErrorKind::InvalidFolder),
        path: None,
    }
}

/// The error reporting a directory found inside a pattern-directory.
pub open spec fn invalid_folder_at(path: Seq<char>) -> ErrorModel {
    ErrorModel {
        kind: ErrorKind::InvalidFolder,
        message: kind_default_msg(ErrorKind::InvalidFolder),
        path: Some(path),
    }
}

/// The error reporting a file inside a pattern-directory whose name fails
/// the pattern.
pub open spec fn invalid_file_err(pat: Seq<char>, path: Seq<char>) -> ErrorModel {
    ErrorModel {
        kind: ErrorKind::InvalidFile,
        message: pattern_violation_msg(pat),
        path: Some(path),
    }
}

/// The errors a pattern-directory's children are reported with: every
/// sub-directory is one error, and so is every file whose name fails the
/// pattern, in listing order.
pub open spec fn pattern_children_errors(
    dir_path: Seq<char>,
    pat: Seq<char>,
    children: Seq<FsEntry>,
) -> Seq<ErrorModel>
    decreases children.len(),
{
    if children.len() == 0 {
        Seq::empty()
    } else {
        let head = children[0];
        let head_errs = match head.node {
            FsNode::Dir { .. } => seq![invalid_folder_at(join_paths(dir_path, head.name))],
            FsNode::File { .. } => if !pattern_match(pat, head.name) {
                seq![invalid_file_err(pat, join_paths(dir_path, head.name))]
            } else {
                Seq::empty()
            },
        };
        head_errs + pattern_children_errors(dir_path, pat, children.drop_first())
    }
}

/// The errors validating one schema node reports, against the entries of
/// the directory at `root`.
pub open spec fn validate_item_model(
    entries: Seq<FsEntry>,
    root: Seq<char>,
    item: ShapeItemStatic,
) -> Seq<ErrorModel>
    decreases item,
{
    match item {
        ShapeItemStatic::File(_, n) => if lookup(entries, n@) is None {
            seq![not_found_err(join_paths(root, n@))]
        } else {
            Seq::empty()
        },
        ShapeItemStatic::DirectoryPattern(_, n, p) => match lookup(entries, n@) {
            None => seq![not_found_err(join_paths(root, n@))],
            Some(FsNode::File { .. }) => seq![invalid_folder_plain()],
            Some(FsNode::Dir { entries: sub }) => pattern_children_errors(
                join_paths(root, n@),
                p@,
                sub,
            ),
        },
        ShapeItemStatic::DirectorySchema(_, n, c) => match lookup(entries, n@) {
            None => seq![not_found_err(join_paths(root, n@))],
            Some(FsNode::File { .. }) => seq![invalid_folder_plain()],
            Some(FsNode::Dir { entries: sub }) => validate_seq_model(sub, join_paths(root, n@), c@),
        },
    }
}

/// The errors validating a whole schema reports: each node's errors in
/// schema order, depth first, in one flat list.
pub open spec fn validate_seq_model(
    entries: Seq<FsEntry>,
    root: Seq<char>,
    schema: Seq<ShapeItemStatic>,
) -> Seq<ErrorModel>
    decreases schema,
{
    if schema.len() == 0 {
        Seq::empty()
    } else {
        validate_item_model(entries, root, schema[0]) + validate_seq_model(
            entries,
            root,
            schema.drop_first(),
        )
    }
}

/// Whether the schema's entry names are distinct at its own level, and so
/// are, recursively, those of every nested schema. The shape operations
/// correlate entries by name on disk but by position in the instance tree,
/// so a schema with two entries of one name is degenerate.
pub open spec fn schema_distinct(schema: Seq<ShapeItemStatic>) -> bool
    decreases schema,
{
    &&& forall|i: int, j: int|
        0 <= i < j < schema.len() ==> item_entry_name(#[trigger] schema[i])
            != item_entry_name(#[trigger] schema[j])
    &&& forall|i: int| 0 <= i < schema.len() ==> item_children_distinct(#[trigger] schema[i])
}

/// Whether a schema node's nested schema, if it has one, has distinct
/// entry names throughout.
pub open spec fn item_children_distinct(item: ShapeItemStatic) -> bool
    decreases item,
{
    match item {
        ShapeItemStatic::DirectorySchema(_, _, c) => schema_distinct(c@),
        _ => true,
    }
}

/// The node that instantiating a schema node in an empty spot creates: an
/// empty file, an empty directory, or a directory holding the nested
/// schema's own creation.
pub open spec fn created_node(item: ShapeItemStatic) -> FsNode
    decreases item,
{
    match item {
        ShapeItemStatic::File(_, _) => FsNode::File { content: Seq::empty() },
        ShapeItemStatic::DirectoryPattern(_, _, _) => FsNode::Dir { entries: Seq::empty() },
        ShapeItemStatic::DirectorySchema(_, _, c) => FsNode::Dir { entries: created_tree(c@) },
    }
}

/// The directory entries that instantiating a schema in an empty directory
/// creates: one entry per schema node, in schema order.
pub open spec fn created_tree(schema: Seq<ShapeItemStatic>) -> Seq<FsEntry>
    decreases schema,
{
    if schema.len() == 0 {
        Seq::empty()
    } else {
        seq![
            FsEntry { name: item_entry_name(schema[0]), node: created_node(schema[0]) },
        ] + created_tree(schema.drop_first())
    }
}

/// The entry that instantiating one schema node in an empty spot creates.
pub open spec fn created_entry(item: ShapeItemStatic) -> FsEntry {
    FsEntry { name: item_entry_name(item), node: created_node(item) }
}

proof fn lemma_created_tree_index(schema: Seq<ShapeItemStatic>)
    ensures
        created_tree(schema).len() == schema.len(),
        forall|i: int|
            0 <= i < schema.len() ==> created_tree(schema)[i] == created_entry(#[trigger] schema[i]),
    decreases schema.len(),
{
    if schema.len() > 0 {
        lemma_created_tree_index(schema.drop_first());
        assert forall|i: int|
            0 <= i < schema.len() implies created_tree(schema)[i] == created_entry(
            #[trigger] schema[i],
        ) by {
            if i > 0 {
                assert(created_tree(schema)[i] == created_tree(schema.drop_first())[i - 1]);
                assert(schema.drop_first()[i - 1] == schema[i]);
            }
        }
    }
}

proof fn lemma_index_of_first(es: Seq<FsEntry>, i: int)
    requires
        0 <= i < es.len(),
        forall|j: int| 0 <= j < i ==> es[j].name != es[i].name,
    ensures
        index_of_name(es, es[i].name) == i,
        lookup(es, es[i].name) == Some(es[i].node),
{
    lemma_index_of_name(es, es[i].name);
    let k = index_of_name(es, es[i].name);
    if k == -1 {
        assert(es[i].name != es[i].name);
        assert(false);
    }
    if k < i {
        assert(es[k].name != es[i].name);
        assert(false);
    }
    if k > i {
        assert(es[i].name != es[i].name);
        assert(false);
    }
}

/// In the tree a schema with distinct entry names creates, each node's
/// entry name maps to exactly the node it creates.
pub proof fn lemma_lookup_created(schema: Seq<ShapeItemStatic>)
    requires
        forall|i: int, j: int|
            0 <= i < j < schema.len() ==> item_entry_name(#[trigger] schema[i])
                != item_entry_name(#[trigger] schema[j]),
    ensures
        forall|i: int|
            0 <= i < schema.len() ==> lookup(created_tree(schema), item_entry_name(schema[i]))
                == Some(created_node(#[trigger] schema[i])),
{
    lemma_created_tree_index(schema);
    let es = created_tree(schema);
    assert forall|i: int|
        0 <= i < schema.len() implies lookup(es, item_entry_name(schema[i])) == Some(
        created_node(#[trigger] schema[i]),
    ) by {
        assert(es[i] == created_entry(schema[i]));
        assert forall|j: int| 0 <= j < i implies es[j].name != es[i].name by {
            assert(es[j] == created_entry(schema[j]));
        }
        lemma_index_of_first(es, i);
    }
}

/// Whether none of the schema's entry names is present among the entries.
pub open spec fn names_fresh(entries: Seq<FsEntry>, schema: Seq<ShapeItemStatic>) -> bool {
    forall|i: int|
        0 <= i < schema.len() ==> lookup(entries, item_entry_name(#[trigger] schema[i])) is None
}

/// Instantiating a schema with distinct entry names, none of which is
/// present yet, succeeds and appends exactly the created entries.
pub proof fn lemma_inst_fresh(entries: Seq<FsEntry>, schema: Seq<ShapeItemStatic>)
    requires
        schema_distinct(schema),
        names_fresh(entries, schema),
    ensures
        inst_seq_model(entries, schema) == Some(entries + created_tree(schema)),
    decreases schema,
{
    if schema.len() == 0 {
        assert(entries + created_tree(schema) =~= entries);
    } else {
        let s0 = schema[0];
        let n0 = item_entry_name(s0);
        let e0 = created_entry(s0);
        assert(lookup(entries, n0) is None);
        let es1 = entries.push(e0);
        match s0 {
            ShapeItemStatic::File(_, n) => {
                assert(inst_item_model(entries, s0) == Some(entries.push(
                    FsEntry { name: n@, node: FsNode::File { content: Seq::empty() } },
                )));
                assert(entries.push(
                    FsEntry { name: n@, node: FsNode::File { content: Seq::empty() } },
                ) =~= es1);
            },
            ShapeItemStatic::DirectoryPattern(_, n, _) => {
                assert(inst_item_model(entries, s0) == Some(entries.push(
                    FsEntry { name: n@, node: FsNode::Dir { entries: Seq::empty() } },
                )));
                assert(entries.push(
                    FsEntry { name: n@, node: FsNode::Dir { entries: Seq::empty() } },
                ) =~= es1);
            },
            ShapeItemStatic::DirectorySchema(_, n, c) => {
                let mid = entries.push(
                    FsEntry { name: n@, node: FsNode::Dir { entries: Seq::empty() } },
                );
                lemma_index_of_name(entries, n@);
                lemma_index_of_name_push(
                    entries,
                    FsEntry { name: n@, node: FsNode::Dir { entries: Seq::empty() } },
                    n@,
                );
                let idx = index_of_name(mid, n@);
                assert(idx == entries.len());
                assert(mid[idx].node == (FsNode::Dir { entries: Seq::<FsEntry>::empty() }));
                assert(schema_distinct(c@)) by {
                    assert(item_children_distinct(s0));
                }
                assert(names_fresh(Seq::empty(), c@)) by {
                    assert(forall|i: int|
                        0 <= i < c@.len() ==> lookup(
                            Seq::<FsEntry>::empty(),
                            item_entry_name(#[trigger] c@[i]),
                        ) is None);
                }
                lemma_inst_fresh(Seq::empty(), c@);
                assert(Seq::<FsEntry>::empty() + created_tree(c@) =~= created_tree(c@));
                let done = mid.update(
                    idx,
                    FsEntry { name: n@, node: FsNode::Dir { entries: created_tree(c@) } },
                );
                assert(inst_item_model(entries, s0) == Some(done));
                assert(done =~= es1);
            },
        }
        assert(inst_item_model(entries, s0) == Some(es1));
        let rest = schema.drop_first();
        assert(schema_distinct(rest)) by {
            assert(forall|i: int, j: int|
                0 <= i < j < rest.len() ==> item_entry_name(#[trigger] rest[i]) != item_entry_name(
                    #[trigger] rest[j],
                )) by {
                assert(forall|i: int| 0 <= i < rest.len() ==> rest[i] == schema[i + 1]);
            }
            assert(forall|i: int| 0 <= i < rest.len() ==> item_children_distinct(
                #[trigger] rest[i],
            )) by {
                assert(forall|i: int| 0 <= i < rest.len() ==> rest[i] == schema[i + 1]);
            }
        }
        assert(names_fresh(es1, rest)) by {
            assert forall|i: int|
                0 <= i < rest.len() implies lookup(es1, item_entry_name(#[trigger] rest[i]))
                is None by {
                assert(rest[i] == schema[i + 1]);
                assert(item_entry_name(schema[i + 1]) != n0);
                assert(lookup(entries, item_entry_name(schema[i + 1])) is None);
                lemma_lookup_push(entries, e0, item_entry_name(schema[i + 1]));
            }
        }
        lemma_inst_fresh(es1, rest);
        assert(inst_seq_model(entries, schema) == Some(es1 + created_tree(rest)));
        assert(es1 + created_tree(rest) =~= entries + created_tree(schema));
    }
}

/// Whether each schema node's entry name maps, among the entries, to
/// exactly the node its instantiation creates.
pub open spec fn lookup_matches_created(entries: Seq<FsEntry>, schema: Seq<ShapeItemStatic>) -> bool {
    forall|i: int|
        0 <= i < schema.len() ==> lookup(entries, item_entry_name(schema[i])) == Some(
            created_node(#[trigger] schema[i]),
        )
}

/// Validating a schema against a directory holding, under each entry name,
/// exactly what instantiation creates, finds nothing.
pub proof fn lemma_validate_created(entries: Seq<FsEntry>, root: Seq<char>, schema: Seq<ShapeItemStatic>)
    requires
        schema_distinct(schema),
        lookup_matches_created(entries, schema),
    ensures
        validate_seq_model(entries, root, schema) == Seq::<ErrorModel>::empty(),
    decreases schema,
{
    if schema.len() > 0 {
        let s0 = schema[0];
        assert(lookup(entries, item_entry_name(s0)) == Some(created_node(s0)));
        match s0 {
            ShapeItemStatic::File(_, _) => {
                assert(validate_item_model(entries, root, s0) =~= Seq::<ErrorModel>::empty());
            },
            ShapeItemStatic::DirectoryPattern(_, n, p) => {
                assert(validate_item_model(entries, root, s0) == pattern_children_errors(
                    join_paths(root, n@),
                    p@,
                    Seq::empty(),
                ));
                assert(validate_item_model(entries, root, s0) =~= Seq::<ErrorModel>::empty());
            },
            ShapeItemStatic::DirectorySchema(_, n, c) => {
                assert(item_children_distinct(s0));
                lemma_lookup_created(c@);
                lemma_validate_created(created_tree(c@), join_paths(root, n@), c@);
                assert(validate_item_model(entries, root, s0) =~= Seq::<ErrorModel>::empty());
            },
        }
        assert(validate_item_model(entries, root, s0) =~= Seq::<ErrorModel>::empty());
        let rest = schema.drop_first();
        assert(schema_distinct(rest) && lookup_matches_created(entries, rest)) by {
            assert(forall|i: int| 0 <= i < rest.len() ==> rest[i] == schema[i + 1]);
        }
        lemma_validate_created(entries, root, rest);
        assert(validate_seq_model(entries, root, schema) =~= Seq::<ErrorModel>::empty());
    }
}

/// Round trip: instantiating a schema with distinct entry names in an
/// empty root produces exactly the created tree, and validating that tree
/// against the same schema finds nothing.
pub proof fn lemma_round_trip(schema: Seq<ShapeItemStatic>, root: Seq<char>)
    requires
        schema_distinct(schema),
    ensures
        inst_seq_model(Seq::empty(), schema) == Some(created_tree(schema)),
        validate_seq_model(created_tree(schema), root, schema) == Seq::<ErrorModel>::empty(),
{
    assert(names_fresh(Seq::empty(), schema));
    lemma_inst_fresh(Seq::empty(), schema);
    assert(Seq::<FsEntry>::empty() + created_tree(schema) =~= created_tree(schema));
    lemma_lookup_created(schema);
    lemma_validate_created(created_tree(schema), root, schema);
}

/// Whether a directory's entries already satisfy a schema node: its entry
/// name maps to an entry of the right kind, and a nested schema is
/// satisfied inside it.
pub open spec fn item_satisfied(entries: Seq<FsEntry>, item: ShapeItemStatic) -> bool
    decreases item,
{
    match item {
        ShapeItemStatic::File(_, n) => lookup(entries, n@) matches Some(FsNode::File { .. }),
        ShapeItemStatic::DirectoryPattern(_, n, _) => lookup(entries, n@) matches Some(
            FsNode::Dir { .. },
        ),
        ShapeItemStatic::DirectorySchema(_, n, c) => lookup(entries, n@) matches Some(
            FsNode::Dir { entries: sub },
        ) && schema_satisfied(sub, c@),
    }
}

/// Whether a directory's entries already satisfy every node of a schema.
pub open spec fn schema_satisfied(entries: Seq<FsEntry>, schema: Seq<ShapeItemStatic>) -> bool
    decreases schema,
{
    forall|i: int| 0 <= i < schema.len() ==> item_satisfied(entries, #[trigger] schema[i])
}

/// Instantiating a schema over entries that already satisfy it succeeds
/// and changes nothing.
pub proof fn lemma_inst_satisfied(entries: Seq<FsEntry>, schema: Seq<ShapeItemStatic>)
    requires
        schema_satisfied(entries, schema),
    ensures
        inst_seq_model(entries, schema) == Some(entries),
    decreases schema,
{
    if schema.len() > 0 {
        let s0 = schema[0];
        assert(item_satisfied(entries, s0));
        match s0 {
            ShapeItemStatic::File(_, _) => {},
            ShapeItemStatic::DirectoryPattern(_, _, _) => {},
            ShapeItemStatic::DirectorySchema(_, n, c) => {
                let idx = index_of_name(entries, n@);
                lemma_index_of_name(entries, n@);
                let sub = entries[idx].node->Dir_entries;
                lemma_inst_satisfied(sub, c@);
                assert(entries[idx] == (FsEntry { name: n@, node: FsNode::Dir { entries: sub } }));
                assert(entries.update(
                    idx,
                    FsEntry { name: n@, node: FsNode::Dir { entries: sub } },
                ) =~= entries);
            },
        }
        assert(inst_item_model(entries, s0) == Some(entries));
        let rest = schema.drop_first();
        assert(schema_satisfied(entries, rest)) by {
            assert(forall|i: int| 0 <= i < rest.len() ==> rest[i] == schema[i + 1]);
        }
        lemma_inst_satisfied(entries, rest);
    }
}

proof fn lemma_inst_item_preserves_other(
    entries: Seq<FsEntry>,
    item: ShapeItemStatic,
    es2: Seq<FsEntry>,
    m: Seq<char>,
)
    requires
        inst_item_model(entries, item) == Some(es2),
        item_entry_name(item) != m,
    ensures
        lookup(es2, m) == lookup(entries, m),
{
    let n = item_entry_name(item);
    match item {
        ShapeItemStatic::File(_, _) => {
            if lookup(entries, n) is None {
                lemma_lookup_push(
                    entries,
                    FsEntry { name: n, node: FsNode::File { content: Seq::empty() } },
                    m,
                );
            }
        },
        ShapeItemStatic::DirectoryPattern(_, _, _) => {
            if lookup(entries, n) is None {
                lemma_lookup_push(
                    entries,
                    FsEntry { name: n, node: FsNode::Dir { entries: Seq::empty() } },
                    m,
                );
            }
        },
        ShapeItemStatic::DirectorySchema(_, _, c) => {
            let fresh = FsEntry { name: n, node: FsNode::Dir { entries: Seq::empty() } };
            let mid = if lookup(entries, n) is None {
                entries.push(fresh)
            } else {
                entries
            };
            if lookup(entries, n) is None {
                lemma_lookup_push(entries, fresh, m);
                lemma_lookup_push(entries, fresh, n);
            }
            let idx = index_of_name(mid, n);
            lemma_index_of_name(mid, n);
            let sub = mid[idx].node->Dir_entries;
            let sub2 = inst_seq_model(sub, c@)->Some_0;
            let e2 = FsEntry { name: n, node: FsNode::Dir { entries: sub2 } };
            lemma_lookup_update(mid, e2, m);
        },
    }
}

proof fn lemma_inst_seq_preserves_other(
    entries: Seq<FsEntry>,
    schema: Seq<ShapeItemStatic>,
    es2: Seq<FsEntry>,
    m: Seq<char>,
)
    requires
        inst_seq_model(entries, schema) == Some(es2),
        forall|i: int| 0 <= i < schema.len() ==> item_entry_name(#[trigger] schema[i]) != m,
    ensures
        lookup(es2, m) == lookup(entries, m),
    decreases schema,
{
    if schema.len() > 0 {
        let es1 = inst_item_model(entries, schema[0])->Some_0;
        lemma_inst_item_preserves_other(entries, schema[0], es1, m);
        let rest = schema.drop_first();
        assert(forall|i: int| 0 <= i < rest.len() ==> rest[i] == schema[i + 1]);
        lemma_inst_seq_preserves_other(es1, rest, es2, m);
    }
}

/// After a successful instantiation of a schema with distinct entry names,
/// the resulting entries satisfy the schema.
pub proof fn lemma_inst_satisfies(
    entries: Seq<FsEntry>,
    schema: Seq<ShapeItemStatic>,
    es2: Seq<FsEntry>,
)
    requires
        schema_distinct(schema),
        inst_seq_model(entries, schema) == Some(es2),
    ensures
        schema_satisfied(es2, schema),
    decreases schema,
{
    if schema.len() > 0 {
        let s0 = schema[0];
        let n0 = item_entry_name(s0);
        let es1 = inst_item_model(entries, s0)->Some_0;
        // the first node is satisfied right after its own step
        match s0 {
            ShapeItemStatic::File(_, n) => {
                if lookup(entries, n@) is None {
                    lemma_lookup_push(
                        entries,
                        FsEntry { name: n@, node: FsNode::File { content: Seq::empty() } },
                        n@,
                    );
                }
                assert(item_satisfied(es1, s0));
            },
            ShapeItemStatic::DirectoryPattern(_, n, _) => {
                if lookup(entries, n@) is None {
                    lemma_lookup_push(
                        entries,
                        FsEntry { name: n@, node: FsNode::Dir { entries: Seq::empty() } },
                        n@,
                    );
                }
                assert(item_satisfied(es1, s0));
            },
            ShapeItemStatic::DirectorySchema(_, n, c) => {
                let fresh = FsEntry { name: n@, node: FsNode::Dir { entries: Seq::empty() } };
                let mid = if lookup(entries, n@) is None {
                    entries.push(fresh)
                } else {
                    entries
                };
                if lookup(entries, n@) is None {
                    lemma_lookup_push(entries, fresh, n@);
                }
                let idx = index_of_name(mid, n@);
                lemma_index_of_name(mid, n@);
                let sub = mid[idx].node->Dir_entries;
                let sub2 = inst_seq_model(sub, c@)->Some_0;
                assert(item_children_distinct(s0));
                lemma_inst_satisfies(sub, c@, sub2);
                let e2 = FsEntry { name: n@, node: FsNode::Dir { entries: sub2 } };
                lemma_lookup_update(mid, e2, n@);
                assert(lookup(es1, n@) == Some(FsNode::Dir { entries: sub2 }));
                assert(item_satisfied(es1, s0));
            },
        }
        // the rest of the schema is satisfied by its own run
        let rest = schema.drop_first();
        assert(schema_distinct(rest)) by {
            assert(forall|i: int| 0 <= i < rest.len() ==> rest[i] == schema[i + 1]);
        }
        lemma_inst_satisfies(es1, rest, es2);
        // the rest of the run leaves the first node's entry untouched
        assert(forall|i: int| 0 <= i < rest.len() ==> item_entry_name(#[trigger] rest[i]) != n0)
            by {
            assert(forall|i: int| 0 <= i < rest.len() ==> rest[i] == schema[i + 1]);
        }
        lemma_inst_seq_preserves_other(es1, rest, es2, n0);
        assert(item_satisfied(es2, s0)) by {
            assert(lookup(es2, n0) == lookup(es1, n0));
        }
        assert forall|i: int| 0 <= i < schema.len() implies item_satisfied(
            es2,
            #[trigger] schema[i],
        ) by {
            if i > 0 {
                assert(schema[i] == rest[i - 1]);
            }
        }
    }
}

/// Idempotent creation: instantiating a schema with distinct entry names a
/// second time over the tree its first run produced succeeds and changes
/// nothing, so what the first run created, contents included, is kept.
pub proof fn lemma_idempotent_create(
    entries: Seq<FsEntry>,
    schema: Seq<ShapeItemStatic>,
    es2: Seq<FsEntry>,
)
    requires
        schema_distinct(schema),
        inst_seq_model(entries, schema) == Some(es2),
    ensures
        inst_seq_model(es2, schema) == Some(es2),
{
    lemma_inst_satisfies(entries, schema, es2);
    lemma_inst_satisfied(es2, schema);
}

/// Multi-error accumulation: a schema of two entries, both missing from
/// the directory, is reported with exactly two missing-entry errors, one
/// per entry, in schema order.
pub proof fn lemma_two_missing(
    entries: Seq<FsEntry>,
    root: Seq<char>,
    a: ShapeItemStatic,
    b: ShapeItemStatic,
)
    requires
        lookup(entries, item_entry_name(a)) is None,
        lookup(entries, item_entry_name(b)) is None,
    ensures
        validate_seq_model(entries, root, seq![a, b]) == seq![
            not_found_err(join_paths(root, item_entry_name(a))),
            not_found_err(join_paths(root, item_entry_name(b))),
        ],
{
    let schema = seq![a, b];
    assert(validate_item_model(entries, root, a) =~= seq![
        not_found_err(join_paths(root, item_entry_name(a))),
    ]);
    assert(validate_item_model(entries, root, b) =~= seq![
        not_found_err(join_paths(root, item_entry_name(b))),
    ]);
    assert(schema.drop_first() =~= seq![b]);
    assert(seq![b].drop_first() =~= Seq::<ShapeItemStatic>::empty());
    assert(validate_seq_model(entries, root, Seq::<ShapeItemStatic>::empty())
        =~= Seq::<ErrorModel>::empty());
    assert(validate_seq_model(entries, root, seq![b]) =~= seq![
        not_found_err(join_paths(root, item_entry_name(b))),
    ]);
    assert(validate_seq_model(entries, root, schema) =~= seq![
        not_found_err(join_paths(root, item_entry_name(a))),
        not_found_err(join_paths(root, item_entry_name(b))),
    ]);
}

proof fn lemma_pattern_children_contains(
    dir_path: Seq<char>,
    pat: Seq<char>,
    children: Seq<FsEntry>,
    j: int,
)
    requires
        0 <= j < children.len(),
        children[j].node is Dir,
    ensures
        pattern_children_errors(dir_path, pat, children).contains(
            invalid_folder_at(join_paths(dir_path, children[j].name)),
        ),
    decreases j,
{
    let errs = pattern_children_errors(dir_path, pat, children);
    if j == 0 {
        assert(errs[0] == invalid_folder_at(join_paths(dir_path, children[0].name)));
    } else {
        let rest = children.drop_first();
        assert(rest[j - 1] == children[j]);
        lemma_pattern_children_contains(dir_path, pat, rest, j - 1);
        let tail = pattern_children_errors(dir_path, pat, rest);
        let e = invalid_folder_at(join_paths(dir_path, children[j].name));
        let k = choose|k: int| 0 <= k < tail.len() && tail[k] == e;
        let head_len = errs.len() - tail.len();
        assert(errs[head_len + k] == e);
    }
}

/// Folder-in-pattern-dir rejection: a sub-directory found inside a
/// pattern-directory is reported as an invalid-folder error at the
/// sub-directory's path, whatever the pattern and whatever its name.
pub proof fn lemma_folder_in_pattern_dir(
    entries: Seq<FsEntry>,
    root: Seq<char>,
    item: ShapeItemStatic,
    sub: Seq<FsEntry>,
    j: int,
)
    requires
        item is DirectoryPattern,
        lookup(entries, item_entry_name(item)) == Some(FsNode::Dir { entries: sub }),
        0 <= j < sub.len(),
        sub[j].node is Dir,
    ensures
        validate_item_model(entries, root, item).contains(
            invalid_folder_at(join_paths(join_paths(root, item_entry_name(item)), sub[j].name)),
        ),
{
    let dir_path = join_paths(root, item_entry_name(item));
    lemma_pattern_children_contains(dir_path, decl_pattern_of(item), sub, j);
}

/// The pattern of a pattern-directory node.
pub open spec fn decl_pattern_of(item: ShapeItemStatic) -> Seq<char> {
    match item {
        ShapeItemStatic::DirectoryPattern(_, _, p) => p@,
        _ => Seq::empty(),
    }
}

/// Nested schema recursion: for a schema of one nested directory holding
/// one expected file, with the directory present but the file missing,
/// validation reports exactly one missing-entry error, at the missing
/// file's full path inside the nested directory.
pub proof fn lemma_nested_missing_file(
    entries: Seq<FsEntry>,
    root: Seq<char>,
    outer: ShapeItemStatic,
    inner: ShapeItemStatic,
    sub: Seq<FsEntry>,
)
    requires
        outer matches ShapeItemStatic::DirectorySchema(_, _, c) && c@ == seq![inner],
        lookup(entries, item_entry_name(outer)) == Some(FsNode::Dir { entries: sub }),
        lookup(sub, item_entry_name(inner)) is None,
    ensures
        validate_seq_model(entries, root, seq![outer]) == seq![
            not_found_err(
                join_paths(join_paths(root, item_entry_name(outer)), item_entry_name(inner)),
            ),
        ],
{
    let schema = seq![outer];
    let inner_root = join_paths(root, item_entry_name(outer));
    assert(validate_item_model(sub, inner_root, inner) =~= seq![
        not_found_err(join_paths(inner_root, item_entry_name(inner))),
    ]);
    match outer {
        ShapeItemStatic::DirectorySchema(_, n, c) => {
            assert(c@.drop_first() =~= Seq::<ShapeItemStatic>::empty());
            assert(c@[0] == inner);
            assert(validate_seq_model(sub, inner_root, Seq::<ShapeItemStatic>::empty())
                =~= Seq::<ErrorModel>::empty());
            assert(validate_seq_model(sub, inner_root, c@) == validate_item_model(
                sub,
                inner_root,
                inner,
            ) + validate_seq_model(sub, inner_root, c@.drop_first()));
            assert(validate_seq_model(sub, inner_root, c@) =~= seq![
                not_found_err(join_paths(inner_root, item_entry_name(inner))),
            ]);
            assert(validate_item_model(entries, root, outer) == validate_seq_model(
                sub,
                inner_root,
                c@,
            ));
        },
        _ => {},
    }
    assert(schema.drop_first() =~= Seq::<ShapeItemStatic>::empty());
    assert(validate_seq_model(entries, root, Seq::<ShapeItemStatic>::empty())
        =~= Seq::<ErrorModel>::empty());
    assert(validate_seq_model(entries, root, schema) =~= seq![
        not_found_err(join_paths(inner_root, item_entry_name(inner))),
    ]);
}

/// The on-disk listing checker agrees with the model: for a listing whose
/// entries are a model directory's children, each listed at its path
/// inside the directory and with its kind, the checker's errors are
/// exactly the model's errors for those children.
pub proof fn lemma_listing_matches_model(
    dir_path: Seq<char>,
    pat: Seq<char>,
    listed: Seq<DirEntry>,
    children: Seq<FsEntry>,
)
    requires
        listed.len() == children.len(),
        forall|i: int| 0 <= i < children.len() ==> valid_fs_name((#[trigger] children[i]).name),
        forall|i: int|
            0 <= i < listed.len() ==> (#[trigger] listed[i]).path@ == join_paths(
                dir_path,
                children[i].name,
            ),
        forall|i: int|
            0 <= i < listed.len() ==> ((#[trigger] listed[i]).is_file <==> children[i].node
                is File),
    ensures
        pattern_listing_errors(pat, listed) == pattern_children_errors(dir_path, pat, children),
    decreases children.len(),
{
    if children.len() == 0 {
        assert(pattern_listing_errors(pat, listed) =~= pattern_children_errors(
            dir_path,
            pat,
            children,
        ));
    } else {
        assert(listed[0].path@ == join_paths(dir_path, children[0].name));
        lemma_name_of_join(dir_path, children[0].name);
        let head_model = match children[0].node {
            FsNode::Dir { .. } => seq![invalid_folder_at(join_paths(dir_path, children[0].name))],
            FsNode::File { .. } => if !pattern_match(pat, children[0].name) {
                seq![invalid_file_err(pat, join_paths(dir_path, children[0].name))]
            } else {
                Seq::empty()
            },
        };
        assert(pattern_entry_errors(pat, listed[0]) =~= head_model);
        lemma_listing_matches_model(
            dir_path,
            pat,
            listed.drop_first(),
            children.drop_first(),
        );
        assert(forall|i: int|
            0 <= i < children.drop_first().len() ==> children.drop_first()[i] == children[i + 1]);
        assert(forall|i: int|
            0 <= i < listed.drop_first().len() ==> listed.drop_first()[i] == listed[i + 1]);
        assert(pattern_listing_errors(pat, listed) == pattern_children_errors(
            dir_path,
            pat,
            children,
        ));
    }
}

/// Whether a model node is well formed: every entry name anywhere inside
/// it is non-empty and holds no path separator.
pub open spec fn node_wf(node: FsNode) -> bool
    decreases node,
{
    match node {
        FsNode::File { .. } => true,
        FsNode::Dir { entries } => forall|i: int|
            0 <= i < entries.len() ==> valid_fs_name((#[trigger] entries[i]).name) && node_wf(
                entries[i].node,
            ),
    }
}

/// Whether a sequence of characters can be the name of a real directory
/// entry: non-empty, no path separator, and neither `.` nor `..`.
pub open spec fn valid_fs_name(name: Seq<char>) -> bool {
    &&& name.len() > 0
    &&& !name.contains('/')
    &&& !(name.len() == 1 && name[0] == '.')
    &&& !(name.len() == 2 && name[0] == '.' && name[1] == '.')
}

proof fn lemma_pattern_children_are_child_errors(
    dir_path: Seq<char>,
    pat: Seq<char>,
    children: Seq<FsEntry>,
)
    requires
        forall|i: int| 0 <= i < children.len() ==> valid_fs_name((#[trigger] children[i]).name),
    ensures
        forall|k: int|
            0 <= k < pattern_children_errors(dir_path, pat, children).len()
                ==> pattern_dir_child_error(
                dir_path,
                pat,
                #[trigger] pattern_children_errors(dir_path, pat, children)[k],
            ),
    decreases children.len(),
{
    if children.len() > 0 {
        let errs = pattern_children_errors(dir_path, pat, children);
        let head = children[0];
        lemma_name_of_join(dir_path, head.name);
        assert(is_child_path(dir_path, join_paths(dir_path, head.name)));
        let head_errs = match head.node {
            FsNode::Dir { .. } => seq![invalid_folder_at(join_paths(dir_path, head.name))],
            FsNode::File { .. } => if !pattern_match(pat, head.name) {
                seq![invalid_file_err(pat, join_paths(dir_path, head.name))]
            } else {
                Seq::empty()
            },
        };
        assert(forall|k: int|
            0 <= k < head_errs.len() ==> pattern_dir_child_error(
                dir_path,
                pat,
                #[trigger] head_errs[k],
            ));
        let rest = children.drop_first();
        assert(forall|i: int| 0 <= i < rest.len() ==> rest[i] == children[i + 1]);
        lemma_pattern_children_are_child_errors(dir_path, pat, rest);
        let tail = pattern_children_errors(dir_path, pat, rest);
        assert forall|k: int| 0 <= k < errs.len() implies pattern_dir_child_error(
            dir_path,
            pat,
            #[trigger] errs[k],
        ) by {
            if k < head_errs.len() {
                assert(errs[k] == head_errs[k]);
            } else {
                assert(errs[k] == tail[k - head_errs.len()]);
            }
        }
    }
}

proof fn lemma_model_item_errors_are_walk_errors(
    entries: Seq<FsEntry>,
    root: Seq<char>,
    item: ShapeItemStatic,
)
    requires
        node_wf(FsNode::Dir { entries }),
    ensures
        forall|k: int|
            0 <= k < validate_item_model(entries, root, item).len() ==> error_from_item(
                root,
                item,
                #[trigger] validate_item_model(entries, root, item)[k],
            ) || validate_item_model(entries, root, item)[k].path is None,
    decreases item,
{
    let errs = validate_item_model(entries, root, item);
    match item {
        ShapeItemStatic::File(_, n) => {
            if lookup(entries, n@) is None {
                assert(errs[0] == not_found_err(join_paths(root, n@)));
                assert(error_from_item(root, item, errs[0]));
            }
        },
        ShapeItemStatic::DirectoryPattern(_, n, p) => {
            match lookup(entries, n@) {
                None => {
                    assert(error_from_item(root, item, errs[0]));
                },
                Some(FsNode::File { .. }) => {
                    assert(errs[0].path is None);
                },
                Some(FsNode::Dir { entries: sub }) => {
                    lemma_index_of_name(entries, n@);
                    assert(node_wf(FsNode::Dir { entries: sub }));
                    lemma_pattern_children_are_child_errors(join_paths(root, n@), p@, sub);
                    assert(errs == pattern_children_errors(join_paths(root, n@), p@, sub));
                    assert forall|k: int| 0 <= k < errs.len() implies error_from_item(
                        root,
                        item,
                        #[trigger] errs[k],
                    ) by {
                        assert(pattern_dir_child_error(join_paths(root, n@), p@, errs[k]));
                    }
                },
            }
        },
        ShapeItemStatic::DirectorySchema(_, n, c) => {
            match lookup(entries, n@) {
                None => {
                    assert(error_from_item(root, item, errs[0]));
                },
                Some(FsNode::File { .. }) => {
                    assert(errs[0].path is None);
                },
                Some(FsNode::Dir { entries: sub }) => {
                    lemma_index_of_name(entries, n@);
                    assert(node_wf(FsNode::Dir { entries: sub }));
                    lemma_model_errors_are_walk_errors(sub, join_paths(root, n@), c@);
                    assert(errs == validate_seq_model(sub, join_paths(root, n@), c@));
                    assert forall|k: int| 0 <= k < errs.len() implies error_from_item(
                        root,
                        item,
                        #[trigger] errs[k],
                    ) by {
                        assert(error_from_walk(join_paths(root, n@), c@, errs[k]));
                    }
                },
            }
        },
    }
}

/// Every error the model validator produces for a well-formed tree is an
/// error the on-disk walker's contract allows for that schema and root:
/// the two descriptions of validation agree.
pub proof fn lemma_model_errors_are_walk_errors(
    entries: Seq<FsEntry>,
    root: Seq<char>,
    schema: Seq<ShapeItemStatic>,
)
    requires
        node_wf(FsNode::Dir { entries }),
    ensures
        forall|k: int|
            0 <= k < validate_seq_model(entries, root, schema).len() ==> error_from_walk(
                root,
                schema,
                #[trigger] validate_seq_model(entries, root, schema)[k],
            ),
    decreases schema,
{
    if schema.len() > 0 {
        let errs = validate_seq_model(entries, root, schema);
        let head = validate_item_model(entries, root, schema[0]);
        let rest = schema.drop_first();
        let tail = validate_seq_model(entries, root, rest);
        lemma_model_item_errors_are_walk_errors(entries, root, schema[0]);
        lemma_model_errors_are_walk_errors(entries, root, rest);
        assert(forall|i: int| 0 <= i < rest.len() ==> rest[i] == schema[i + 1]);
        assert forall|k: int| 0 <= k < errs.len() implies error_from_walk(
            root,
            schema,
            #[trigger] errs[k],
        ) by {
            if k < head.len() {
                assert(errs[k] == head[k]);
                assert(error_from_item(root, schema[0], errs[k]) || errs[k].path is None);
            } else {
                let j = k - head.len();
                assert(errs[k] == tail[j]);
                assert(error_from_walk(root, rest, tail[j]));
                if !(tail[j].path is None) && !(tail[j].kind == ErrorKind::NotFound && tail[j].path
                    == Some(root) && tail[j].message == kind_default_msg(ErrorKind::NotFound))
                 {
                    let i = choose|i: int|
                        0 <= i < rest.len() && error_from_item(root, #[trigger] rest[i], tail[j]);
                    assert(schema[i + 1] == rest[i]);
                    assert(error_from_item(root, schema[i + 1], tail[j]));
                }
            }
        }
    }
}

} // verus!
