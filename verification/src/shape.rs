//! The shape subsystem: materializing a schema on disk as an instance tree,
//! and validating an existing tree against a schema while collecting every
//! deviation.

use crate::dir::Dir;
use crate::dir::DirEntry;
use crate::error::Error;
use crate::error::ErrorKind;
use crate::error::ErrorModel;
use crate::error::kind_default_msg;
use crate::file::File;
use crate::outside::is_child_path;
use crate::path_stuff::join_entry;
use crate::path_stuff::join_paths;
use crate::path_stuff::name_of;
use crate::pattern::check_pattern;
use crate::pattern::pattern_match;
use crate::schema::ShapeItemStatic;
use crate::schema::ShapeSchemaStatic;
use vstd::prelude::*;

verus! {

/// One entry of an instance tree: a live handle on a created or described
/// entry, ordered exactly as the schema node it was built from.
#[derive(Debug)]
pub enum ShapeInstItem {
    /// The handle for a file node.
    File(File),
    /// The handle for a pattern-directory node.
    Directory(Dir),
    /// The nested instance tree for a schema-directory node.
    ShapedDirectory(ShapeInst),
}

/// An instance tree: an ordered sequence of instance items.
pub type ShapeInst = Vec<ShapeInstItem>;

/// Whether an instance item corresponds to a schema node rooted at `root`:
/// the item's variant follows the node's, its handle carries the node's
/// entry path, and a nested tree corresponds to the nested schema.
pub open spec fn inst_item_matches(item: ShapeInstItem, node: ShapeItemStatic, root: Seq<char>) -> bool
    decreases node,
{
    match node {
        ShapeItemStatic::File(_, n) => item matches ShapeInstItem::File(f) && f.path@ == join_paths(
            root,
            n@,
        ),
        ShapeItemStatic::DirectoryPattern(_, n, _) => item matches ShapeInstItem::Directory(d)
            && d.path@ == join_paths(root, n@),
        ShapeItemStatic::DirectorySchema(_, n, c) => item matches ShapeInstItem::ShapedDirectory(
            sub,
        ) && inst_matches_schema(sub@, c@, join_paths(root, n@)),
    }
}

/// Positional correspondence between an instance tree and a schema: the
/// same length, and at every position an item corresponding to the schema
/// node there, recursively at every depth.
pub open spec fn inst_matches_schema(
    inst: Seq<ShapeInstItem>,
    schema: Seq<ShapeItemStatic>,
    root: Seq<char>,
) -> bool
    decreases schema,
{
    &&& inst.len() == schema.len()
    &&& forall|i: int|
        0 <= i < schema.len() ==> inst_item_matches(inst[i], #[trigger] schema[i], root)
}

/// The message attached to a pattern-violation error: it names the pattern
/// the file's name failed to match.
pub open spec fn pattern_violation_msg(pat: Seq<char>) -> Seq<char> {
    "file doesn't match pattern \""@ + pat + "\""@
}

fn make_pattern_violation_msg(pattern: &str) -> (r: String)
    ensures
        r@ == pattern_violation_msg(pattern@),
{
    let mut msg = "file doesn't match pattern \"".to_owned();
    msg.append(pattern);
    msg.append("\"");
    msg
}

/// Whether an error can come out of validating the given schema against the
/// given root: it is an error handed through from the filesystem layer
/// (those carry no path), the root reported missing, or an error one of the
/// schema's nodes reports, recursively.
pub open spec fn error_from_walk(root: Seq<char>, schema: Seq<ShapeItemStatic>, e: ErrorModel) -> bool
    decreases schema,
{
    ||| e.path is None
    ||| e.kind == ErrorKind::NotFound && e.path == Some(root) && e.message == kind_default_msg(
        ErrorKind::NotFound,
    )
    ||| exists|i: int| 0 <= i < schema.len() && error_from_item(root, #[trigger] schema[i], e)
}

/// The errors one schema node can report: a missing entry, and, for a
/// pattern-directory, a sub-directory found inside it or a child file whose
/// name fails its pattern; a schema-directory reports its nested schema's
/// errors, rooted at its own entry path.
pub open spec fn error_from_item(root: Seq<char>, node: ShapeItemStatic, e: ErrorModel) -> bool
    decreases node,
{
    match node {
        ShapeItemStatic::File(_, n) => e.kind == ErrorKind::NotFound && e.path == Some(
            join_paths(root, n@),
        ) && e.message == kind_default_msg(ErrorKind::NotFound),
        ShapeItemStatic::DirectoryPattern(_, n, p) => {
            ||| e.kind == ErrorKind::NotFound && e.path == Some(join_paths(root, n@))
                && e.message == kind_default_msg(ErrorKind::NotFound)
            ||| e.kind == ErrorKind::InvalidFolder && (e.path matches Some(q) && is_child_path(
                join_paths(root, n@),
                q,
            )) && e.message == kind_default_msg(ErrorKind::InvalidFolder)
            ||| e.kind == ErrorKind::InvalidFile && e.message == pattern_violation_msg(p@) && (
            e.path matches Some(q) && is_child_path(join_paths(root, n@), q) && !pattern_match(
                p@,
                name_of(q),
            ))
        },
        ShapeItemStatic::DirectorySchema(_, n, c) => {
            ||| e.kind == ErrorKind::NotFound && e.path == Some(join_paths(root, n@))
                && e.message == kind_default_msg(ErrorKind::NotFound)
            ||| error_from_walk(join_paths(root, n@), c@, e)
        },
    }
}

/// The errors one listed entry of a pattern-directory is reported with: a
/// sub-directory is always one invalid-folder error, a file whose name
/// fails the pattern is one invalid-file error naming the pattern, and a
/// file whose name matches is none.
pub open spec fn pattern_entry_errors(pat: Seq<char>, entry: DirEntry) -> Seq<ErrorModel> {
    if !entry.is_file {
        seq![
            ErrorModel {
                kind: ErrorKind::InvalidFolder,
                message: kind_default_msg(ErrorKind::InvalidFolder),
                path: Some(entry.path@),
            },
        ]
    } else if !pattern_match(pat, name_of(entry.path@)) {
        seq![
            ErrorModel {
                kind: ErrorKind::InvalidFile,
                message: pattern_violation_msg(pat),
                path: Some(entry.path@),
            },
        ]
    } else {
        Seq::empty()
    }
}

/// The errors a pattern-directory's whole listing is reported with, in
/// listing order.
pub open spec fn pattern_listing_errors(pat: Seq<char>, entries: Seq<DirEntry>) -> Seq<ErrorModel>
    decreases entries.len(),
{
    if entries.len() == 0 {
        Seq::empty()
    } else {
        pattern_entry_errors(pat, entries[0]) + pattern_listing_errors(pat, entries.drop_first())
    }
}

proof fn lemma_pattern_listing_errors_push(pat: Seq<char>, entries: Seq<DirEntry>, x: DirEntry)
    ensures
        pattern_listing_errors(pat, entries.push(x)) == pattern_listing_errors(pat, entries)
            + pattern_entry_errors(pat, x),
    decreases entries.len(),
{
    if entries.len() == 0 {
        assert(entries.push(x)[0] == x);
        assert(entries.push(x).drop_first() =~= entries);
        assert(pattern_listing_errors(pat, entries.push(x)) == pattern_entry_errors(pat, x)
            + pattern_listing_errors(pat, entries));
        assert(pattern_entry_errors(pat, x) + pattern_listing_errors(pat, entries)
            =~= pattern_listing_errors(pat, entries) + pattern_entry_errors(pat, x));
    } else {
        lemma_pattern_listing_errors_push(pat, entries.drop_first(), x);
        assert(entries.push(x)[0] == entries[0]);
        assert(entries.push(x).drop_first() =~= entries.drop_first().push(x));
        assert(pattern_entry_errors(pat, entries[0]) + (pattern_listing_errors(
            pat,
            entries.drop_first(),
        ) + pattern_entry_errors(pat, x)) =~= (pattern_entry_errors(pat, entries[0])
            + pattern_listing_errors(pat, entries.drop_first())) + pattern_entry_errors(pat, x));
    }
}

/// Check the listing of a pattern-directory: the result is exactly
/// [`pattern_listing_errors`] of the listing. All violations are
/// collected; nothing stops at the first.
fn check_pattern_dir_entries(dir_path: Ghost<Seq<char>>, pattern: &str, entries: &Vec<DirEntry>) -> (
    r: Vec<Error>)
    requires
        crate::dir::entries_under(dir_path@, entries@),
    ensures
        r@.len() == pattern_listing_errors(pattern@, entries@).len(),
        forall|k: int|
            0 <= k < r@.len() ==> r@[k]@ == pattern_listing_errors(pattern@, entries@)[k],
        forall|k: int|
            0 <= k < r@.len() ==> pattern_dir_child_error(dir_path@, pattern@, #[trigger] r@[k]@),
{
    let mut errors: Vec<Error> = Vec::new();
    let mut i: usize = 0;
    while i < entries.len()
        invariant
            i <= entries.len(),
            crate::dir::entries_under(dir_path@, entries@),
            errors@.len() == pattern_listing_errors(
                pattern@,
                entries@.subrange(0, i as int),
            ).len(),
            forall|k: int|
                0 <= k < errors@.len() ==> errors@[k]@ == pattern_listing_errors(
                    pattern@,
                    entries@.subrange(0, i as int),
                )[k],
            forall|k: int|
                0 <= k < errors@.len() ==> pattern_dir_child_error(
                    dir_path@,
                    pattern@,
                    #[trigger] errors@[k]@,
                ),
        decreases entries.len() - i,
    {
        let entry = &entries[i];
        let ghost prefix = entries@.subrange(0, i as int);
        let ghost grown = entries@.subrange(0, i + 1 as int);
        proof {
            assert(entries@[i as int] == *entry);
            assert(grown =~= prefix.push(*entry));
            lemma_pattern_listing_errors_push(pattern@, prefix, *entry);
        }
        if !entry.is_file {
            let err = Error::new_from_kind(ErrorKind::InvalidFolder).set_path(entry.path.clone());
            let ghost em = err@;
            let ghost before = errors@;
            proof {
                assert(pattern_dir_child_error(dir_path@, pattern@, em));
                assert(pattern_entry_errors(pattern@, *entry) =~= seq![em]);
            }
            errors.push(err);
            proof {
                assert(pattern_listing_errors(pattern@, grown) == pattern_listing_errors(
                    pattern@,
                    prefix,
                ) + seq![em]);
                assert forall|k: int| 0 <= k < errors@.len() implies errors@[k]@
                    == pattern_listing_errors(pattern@, grown)[k] && pattern_dir_child_error(
                    dir_path@,
                    pattern@,
                    #[trigger] errors@[k]@,
                ) by {
                    if k < before.len() {
                        assert(errors@[k] == before[k]);
                        assert(pattern_listing_errors(pattern@, grown)[k]
                            == pattern_listing_errors(pattern@, prefix)[k]);
                    } else {
                        assert(errors@[k]@ == em);
                        assert(pattern_listing_errors(pattern@, grown)[k] == em);
                    }
                }
            }
        } else {
            let nm = match entry.file_name() {
                Ok(n) => n,
                Err(_) => "",
            };
            proof {
                reveal_strlit("");
                assert(nm@ =~= name_of(entry.path@));
            }
            if !check_pattern(pattern, nm) {
                let msg = make_pattern_violation_msg(pattern);
                let err = Error::new2(ErrorKind::InvalidFile, msg).set_path(entry.path.clone());
                let ghost em = err@;
                let ghost before = errors@;
                proof {
                    assert(pattern_dir_child_error(dir_path@, pattern@, em));
                    assert(pattern_entry_errors(pattern@, *entry) =~= seq![em]);
                }
                errors.push(err);
                proof {
                    assert(pattern_listing_errors(pattern@, grown) == pattern_listing_errors(
                        pattern@,
                        prefix,
                    ) + seq![em]);
                    assert forall|k: int| 0 <= k < errors@.len() implies errors@[k]@
                        == pattern_listing_errors(pattern@, grown)[k] && pattern_dir_child_error(
                        dir_path@,
                        pattern@,
                        #[trigger] errors@[k]@,
                    ) by {
                        if k < before.len() {
                            assert(errors@[k] == before[k]);
                            assert(pattern_listing_errors(pattern@, grown)[k]
                                == pattern_listing_errors(pattern@, prefix)[k]);
                        } else {
                            assert(errors@[k]@ == em);
                            assert(pattern_listing_errors(pattern@, grown)[k] == em);
                        }
                    }
                }
            } else {
                proof {
                    assert(pattern_entry_errors(pattern@, *entry) =~= Seq::<ErrorModel>::empty());
                    assert(pattern_listing_errors(pattern@, grown) =~= pattern_listing_errors(
                        pattern@,
                        prefix,
                    ));
                }
            }
        }
        i = i + 1;
    }
    proof {
        assert(entries@.subrange(0, entries@.len() as int) =~= entries@);
    }
    errors
}

/// The two errors a child of a pattern-directory can be reported with.
pub open spec fn pattern_dir_child_error(dir_path: Seq<char>, pat: Seq<char>, e: ErrorModel) -> bool {
    ||| e.kind == ErrorKind::InvalidFolder && (e.path matches Some(q) && is_child_path(dir_path, q))
        && e.message == kind_default_msg(ErrorKind::InvalidFolder)
    ||| e.kind == ErrorKind::InvalidFile && e.message == pattern_violation_msg(pat) && (
    e.path matches Some(q) && is_child_path(dir_path, q) && !pattern_match(pat, name_of(q)))
}

proof fn lemma_push_walk_error(
    root: Seq<char>,
    schema: Seq<ShapeItemStatic>,
    before: Seq<Error>,
    after: Seq<Error>,
    e: Error,
)
    requires
        after == before.push(e),
        forall|k: int| 0 <= k < before.len() ==> error_from_walk(root, schema, #[trigger] before[k]@),
        error_from_walk(root, schema, e@),
    ensures
        forall|k: int| 0 <= k < after.len() ==> error_from_walk(root, schema, #[trigger] after[k]@),
{
    assert forall|k: int| 0 <= k < after.len() implies error_from_walk(
        root,
        schema,
        #[trigger] after[k]@,
    ) by {
        if k < before.len() {
            assert(after[k] == before[k]);
        } else {
            assert(after[k] == e);
        }
    }
}

proof fn lemma_append_walk_errors(
    root: Seq<char>,
    schema: Seq<ShapeItemStatic>,
    before: Seq<Error>,
    appended: Seq<Error>,
    after: Seq<Error>,
)
    requires
        after == before + appended,
        forall|k: int| 0 <= k < before.len() ==> error_from_walk(root, schema, #[trigger] before[k]@),
        forall|k: int|
            0 <= k < appended.len() ==> error_from_walk(root, schema, #[trigger] appended[k]@),
    ensures
        forall|k: int| 0 <= k < after.len() ==> error_from_walk(root, schema, #[trigger] after[k]@),
{
    assert forall|k: int| 0 <= k < after.len() implies error_from_walk(
        root,
        schema,
        #[trigger] after[k]@,
    ) by {
        if k < before.len() {
            assert(after[k] == before[k]);
        } else {
            assert(after[k] == appended[k - before.len()]);
        }
    }
}

/// Where one reported error may come from: position `-1` stands for the
/// report that the root itself is missing; position `i` stands for the
/// schema node there, which reports its own errors and hands filesystem
/// errors (those carry no path) through at its turn.
pub open spec fn error_attributed(
    root: Seq<char>,
    schema: Seq<ShapeItemStatic>,
    e: ErrorModel,
    i: int,
) -> bool {
    ||| i == -1 && e.kind == ErrorKind::NotFound && e.path == Some(root) && e.message
        == kind_default_msg(ErrorKind::NotFound)
    ||| 0 <= i < schema.len() && (error_from_item(root, schema[i], e) || e.path is None)
}

/// Whether `att` assigns each reported error its source, in nondecreasing
/// schema position: the report follows schema declaration order.
pub open spec fn attribution_ok(
    root: Seq<char>,
    schema: Seq<ShapeItemStatic>,
    errs: Seq<Error>,
    att: Seq<int>,
) -> bool {
    &&& att.len() == errs.len()
    &&& forall|k1: int, k2: int|
        0 <= k1 < k2 < att.len() ==> #[trigger] att[k1] <= #[trigger] att[k2]
    &&& forall|k: int|
        0 <= k < att.len() ==> error_attributed(root, schema, errs[k]@, #[trigger] att[k])
}

/// The reported errors follow schema declaration order, depth first: some
/// nondecreasing attribution of the errors to schema positions exists,
/// with a nested schema's whole subtree reported at its node's turn.
pub open spec fn errors_in_schema_order(
    root: Seq<char>,
    schema: Seq<ShapeItemStatic>,
    errs: Seq<Error>,
) -> bool {
    exists|att: Seq<int>| #[trigger] attribution_ok(root, schema, errs, att)
}

proof fn lemma_attribution_extend(
    root: Seq<char>,
    schema: Seq<ShapeItemStatic>,
    before: Seq<Error>,
    added: Seq<Error>,
    att: Seq<int>,
    i: int,
) -> (att2: Seq<int>)
    requires
        attribution_ok(root, schema, before, att),
        forall|k: int| 0 <= k < att.len() ==> #[trigger] att[k] <= i,
        forall|k: int|
            0 <= k < added.len() ==> error_attributed(root, schema, (#[trigger] added[k])@, i),
    ensures
        attribution_ok(root, schema, before + added, att2),
        forall|k: int| 0 <= k < att2.len() ==> #[trigger] att2[k] <= i,
{
    let att2 = att + Seq::new(added.len(), |j: int| i);
    let errs2 = before + added;
    assert forall|k: int| 0 <= k < att2.len() implies error_attributed(
        root,
        schema,
        errs2[k]@,
        #[trigger] att2[k],
    ) && att2[k] <= i by {
        if k < att.len() {
            assert(att2[k] == att[k]);
            assert(errs2[k] == before[k]);
        } else {
            assert(att2[k] == i);
            assert(errs2[k] == added[k - att.len()]);
        }
    }
    assert forall|k1: int, k2: int|
        0 <= k1 < k2 < att2.len() implies #[trigger] att2[k1] <= #[trigger] att2[k2] by {
        if k2 < att.len() {
        } else if k1 < att.len() {
            assert(att2[k1] == att[k1] && att2[k1] <= i);
            assert(att2[k2] == i);
        } else {
            assert(att2[k1] == i && att2[k2] == i);
        }
    }
    att2
}

/// Validate a directory against a schema, collecting every deviation found
/// anywhere in the tree into one flat list, in schema order, depth first.
/// A missing root yields a single error; per-entry errors never stop the
/// walk.
pub fn validate_dir(dir: Dir, target: &ShapeSchemaStatic) -> (errors: Vec<Error>)
    ensures
        forall|k: int|
            0 <= k < errors@.len() ==> error_from_walk(dir.path@, target@, #[trigger] errors@[k]@),
        errors_in_schema_order(dir.path@, target@, errors@),
    decreases *target,
{
    let mut errors: Vec<Error> = Vec::new();
    if !dir.exists_on_disk() {
        let err = Error::new_from_kind(ErrorKind::NotFound).set_path(dir.path.clone());
        let ghost em = err@;
        errors.push(err);
        proof {
            assert(errors@[0]@ == em);
            let att = seq![-1int];
            assert(attribution_ok(dir.path@, target@, errors@, att));
        }
        return errors;
    }
    let ghost mut att: Seq<int> = Seq::empty();
    let mut i: usize = 0;
    while i < target.len()
        invariant
            i <= target.len(),
            forall|k: int|
                0 <= k < errors@.len() ==> error_from_walk(
                    dir.path@,
                    target@,
                    #[trigger] errors@[k]@,
                ),
            attribution_ok(dir.path@, target@, errors@, att),
            forall|k: int| 0 <= k < att.len() ==> #[trigger] att[k] < i,
        decreases target.len() - i,
    {
        let item = &target[i];
        proof {
            assert(target@[i as int] == *item);
        }
        match item {
            ShapeItemStatic::File(_, entry_name) => {
                if !dir.entry_exists(entry_name.as_str()) {
                    let p = join_entry(dir.path.as_str(), entry_name.as_str());
                    let err = Error::new_from_kind(ErrorKind::NotFound).set_path(p);
                    let ghost before = errors@;
                    let ghost ev = err;
                    proof {
                        assert(error_from_item(dir.path@, target@[i as int], ev@));
                    }
                    errors.push(err);
                    proof {
                        lemma_push_walk_error(dir.path@, target@, before, errors@, ev);
                        assert(errors@ =~= before + seq![ev]);
                        att = lemma_attribution_extend(
                            dir.path@,
                            target@,
                            before,
                            seq![ev],
                            att,
                            i as int,
                        );
                    }
                }
            },
            ShapeItemStatic::DirectoryPattern(_, entry_name, pattern) => {
                if !dir.entry_exists(entry_name.as_str()) {
                    let p = join_entry(dir.path.as_str(), entry_name.as_str());
                    let err = Error::new_from_kind(ErrorKind::NotFound).set_path(p);
                    let ghost before = errors@;
                    let ghost ev = err;
                    proof {
                        assert(error_from_item(dir.path@, target@[i as int], ev@));
                    }
                    errors.push(err);
                    proof {
                        lemma_push_walk_error(dir.path@, target@, before, errors@, ev);
                        assert(errors@ =~= before + seq![ev]);
                        att = lemma_attribution_extend(
                            dir.path@,
                            target@,
                            before,
                            seq![ev],
                            att,
                            i as int,
                        );
                    }
                } else {
                    match dir.get_dir(entry_name.as_str()) {
                        Err(e) => {
                            let ghost before = errors@;
                            let ghost ev = e;
                            errors.push(e);
                            proof {
                                lemma_push_walk_error(dir.path@, target@, before, errors@, ev);
                                assert(errors@ =~= before + seq![ev]);
                                att = lemma_attribution_extend(
                                    dir.path@,
                                    target@,
                                    before,
                                    seq![ev],
                                    att,
                                    i as int,
                                );
                            }
                        },
                        Ok(sub_dir) => {
                            match sub_dir.read() {
                                Err(e) => {
                                    let ghost before = errors@;
                                    let ghost ev = e;
                                    errors.push(e);
                                    proof {
                                        lemma_push_walk_error(
                                            dir.path@,
                                            target@,
                                            before,
                                            errors@,
                                            ev,
                                        );
                                        assert(errors@ =~= before + seq![ev]);
                                        att = lemma_attribution_extend(
                                            dir.path@,
                                            target@,
                                            before,
                                            seq![ev],
                                            att,
                                            i as int,
                                        );
                                    }
                                },
                                Ok(sub_entries) => {
                                    let ghost sub_path = join_paths(dir.path@, entry_name@);
                                    let mut child_errors = check_pattern_dir_entries(
                                        Ghost(sub_path),
                                        pattern.as_str(),
                                        &sub_entries,
                                    );
                                    let ghost before = errors@;
                                    let ghost children = child_errors@;
                                    errors.append(&mut child_errors);
                                    proof {
                                        assert forall|k: int|
                                            0 <= k < children.len() implies error_from_walk(
                                            dir.path@,
                                            target@,
                                            #[trigger] children[k]@,
                                        ) && error_attributed(
                                            dir.path@,
                                            target@,
                                            children[k]@,
                                            i as int,
                                        ) by {
                                            assert(pattern_dir_child_error(
                                                sub_path,
                                                pattern@,
                                                children[k]@,
                                            ));
                                            assert(error_from_item(
                                                dir.path@,
                                                target@[i as int],
                                                children[k]@,
                                            ));
                                        }
                                        lemma_append_walk_errors(
                                            dir.path@,
                                            target@,
                                            before,
                                            children,
                                            errors@,
                                        );
                                        att = lemma_attribution_extend(
                                            dir.path@,
                                            target@,
                                            before,
                                            children,
                                            att,
                                            i as int,
                                        );
                                    }
                                },
                            }
                        },
                    }
                }
            },
            ShapeItemStatic::DirectorySchema(_, entry_name, child_schema) => {
                if !dir.entry_exists(entry_name.as_str()) {
                    let p = join_entry(dir.path.as_str(), entry_name.as_str());
                    let err = Error::new_from_kind(ErrorKind::NotFound).set_path(p);
                    let ghost before = errors@;
                    let ghost ev = err;
                    proof {
                        assert(error_from_item(dir.path@, target@[i as int], ev@));
                    }
                    errors.push(err);
                    proof {
                        lemma_push_walk_error(dir.path@, target@, before, errors@, ev);
                        assert(errors@ =~= before + seq![ev]);
                        att = lemma_attribution_extend(
                            dir.path@,
                            target@,
                            before,
                            seq![ev],
                            att,
                            i as int,
                        );
                    }
                } else {
                    match dir.get_dir(entry_name.as_str()) {
                        Err(e) => {
                            let ghost before = errors@;
                            let ghost ev = e;
                            errors.push(e);
                            proof {
                                lemma_push_walk_error(dir.path@, target@, before, errors@, ev);
                                assert(errors@ =~= before + seq![ev]);
                                att = lemma_attribution_extend(
                                    dir.path@,
                                    target@,
                                    before,
                                    seq![ev],
                                    att,
                                    i as int,
                                );
                            }
                        },
                        Ok(sub_dir) => {
                            proof {
                                assert(decreases_to!(*target => *child_schema));
                            }
                            let mut child_errors = validate_dir(sub_dir, child_schema);
                            let ghost before = errors@;
                            let ghost children = child_errors@;
                            errors.append(&mut child_errors);
                            proof {
                                assert forall|k: int|
                                    0 <= k < children.len() implies error_from_walk(
                                    dir.path@,
                                    target@,
                                    #[trigger] children[k]@,
                                ) && error_attributed(
                                    dir.path@,
                                    target@,
                                    children[k]@,
                                    i as int,
                                ) by {
                                    assert(error_from_walk(
                                        join_paths(dir.path@, entry_name@),
                                        child_schema@,
                                        children[k]@,
                                    ));
                                    assert(error_from_item(
                                        dir.path@,
                                        target@[i as int],
                                        children[k]@,
                                    ));
                                }
                                lemma_append_walk_errors(
                                    dir.path@,
                                    target@,
                                    before,
                                    children,
                                    errors@,
                                );
                                att = lemma_attribution_extend(
                                    dir.path@,
                                    target@,
                                    before,
                                    children,
                                    att,
                                    i as int,
                                );
                            }
                        },
                    }
                }
            },
        }
        i = i + 1;
    }
    proof {
        assert(attribution_ok(dir.path@, target@, errors@, att));
    }
    errors
}

fn silent_hook(_path: String, _created: bool) {
}

/// Walk a schema against a target root, building the instance tree; with
/// `create` on, each missing entry is created on disk first (idempotently:
/// an existing entry of the right kind is left as it is), and the hook, if
/// any, is told of each entry handled. With `create` off the same walk
/// runs without touching the disk: pure description. The first filesystem
/// error aborts the whole walk; a partly built tree may be left behind.
pub fn create_shape_inst<F: Fn(String, bool)>(
    path_buf: &str,
    target_shape: &ShapeSchemaStatic,
    create: bool,
    hook: Option<&F>,
) -> (r: Result<ShapeInst, Error>)
    requires
        hook matches Some(h) ==> forall|p: String, b: bool| call_requires(*h, (p, b)),
    ensures
        r matches Ok(inst) ==> inst_matches_schema(inst@, target_shape@, path_buf@),
        r matches Err(e) ==> e@.path is None,
    decreases *target_shape,
{
    let mut res: Vec<ShapeInstItem> = Vec::new();
    let mut i: usize = 0;
    while i < target_shape.len()
        invariant
            i <= target_shape.len(),
            res@.len() == i,
            forall|k: int|
                0 <= k < i ==> inst_item_matches(res@[k], #[trigger] target_shape@[k], path_buf@),
            hook matches Some(h) ==> forall|p: String, b: bool| call_requires(*h, (p, b)),
        decreases target_shape.len() - i,
    {
        let item = &target_shape[i];
        proof {
            assert(target_shape@[i as int] == *item);
        }
        let ghost before = res@;
        match item {
            ShapeItemStatic::File(_, entry_name) => {
                let entry_path = join_entry(path_buf, entry_name.as_str());
                let file = File::new(entry_path.as_str())?;
                if create {
                    file.create()?;
                    if let Some(hook_fn) = hook {
                        hook_fn(entry_path, true);
                    }
                }
                res.push(ShapeInstItem::File(file));
            },
            ShapeItemStatic::DirectoryPattern(_, entry_name, _) => {
                let entry_path = join_entry(path_buf, entry_name.as_str());
                let dir = Dir::new(entry_path.as_str())?;
                if create {
                    dir.create()?;
                    if let Some(hook_fn) = hook {
                        hook_fn(entry_path, true);
                    }
                }
                res.push(ShapeInstItem::Directory(dir));
            },
            ShapeItemStatic::DirectorySchema(_, entry_name, child_schema) => {
                let entry_path = join_entry(path_buf, entry_name.as_str());
                let dir = Dir::new(entry_path.as_str())?;
                if create {
                    dir.create()?;
                    if let Some(hook_fn) = hook {
                        hook_fn(entry_path.clone(), true);
                    }
                }
                proof {
                    assert(decreases_to!(*target_shape => *child_schema));
                }
                let child = create_shape_inst(entry_path.as_str(), child_schema, create, hook)?;
                res.push(ShapeInstItem::ShapedDirectory(child));
            },
        }
        proof {
            assert(inst_item_matches(res@[i as int], target_shape@[i as int], path_buf@));
            assert forall|k: int|
                0 <= k < res@.len() implies inst_item_matches(
                res@[k],
                #[trigger] target_shape@[k],
                path_buf@,
            ) by {
                if k < i {
                    assert(res@[k] == before[k]);
                }
            }
        }
        i = i + 1;
    }
    Ok(res)
}

/// Implemented by a declared record type bound to a shape: it supplies its
/// compiled schema, and rebuilds itself from an instance tree walked in
/// schema order (field by field, positionally).
pub trait ShapeDescribe: Sized {
    /// The compiled schema of the declared type.
    fn shape_describe() -> ShapeSchemaStatic;

    /// Rebuild the declared type from an instance tree whose items stand
    /// in the same order as the schema's nodes.
    fn shape_new(inst: ShapeInst) -> Self;
}

/// The same surface as [`ShapeDescribe`], for types whose schema is fixed
/// ahead of any use.
pub trait ShapeDescribeStatic: Sized {
    /// The compiled schema of the declared type.
    fn shape_describe() -> ShapeSchemaStatic;

    /// Rebuild the declared type from an instance tree whose items stand
    /// in the same order as the schema's nodes.
    fn shape_new(inst: ShapeInst) -> Self;
}

/// Binds a declared record type to its compiled schema and exposes the
/// shape operations: create the shape at a root, create it while reporting
/// progress, and validate an existing tree against it.
pub struct Shape<T: ShapeDescribe> {
    ignore_me: Option<T>,
}

impl<T: ShapeDescribe> Shape<T> {
    /// Create a new shape for the declared type.
    pub fn new() -> Shape<T> {
        Shape { ignore_me: None }
    }

    /// Create the shape inside the directory at `path` and rebuild the
    /// declared type from the instance tree, positionally.
    pub fn create_at(&self, path: &str) -> (r: Result<T, Error>)
        ensures
            r matches Err(e) ==> e@.path is None,
    {
        let target = T::shape_describe();
        let res = create_shape_inst(path, &target, true, Some(&silent_hook))?;
        Ok(T::shape_new(res))
    }

    /// Like [`Shape::create_at`], invoking the hook once per entry
    /// materialized, with the entry's path, for progress reporting.
    pub fn create_at_hook<F: Fn(String, bool)>(&self, path: &str, hook: &F) -> (r: Result<
        T,
        Error,
    >)
        requires
            forall|p: String, b: bool| call_requires(*hook, (p, b)),
        ensures
            r matches Err(e) ==> e@.path is None,
    {
        let target = T::shape_describe();
        let res = create_shape_inst(path, &target, true, Some(hook))?;
        Ok(T::shape_new(res))
    }

    /// Check whether the directory at `path` matches the shape: `Ok` when
    /// it conforms, otherwise the non-empty list of every deviation found,
    /// in schema order, depth first. The error kinds that can appear are
    /// `NotFound` for a missing entry, `InvalidFolder` for a directory
    /// found where none is allowed, `InvalidFile` for a file whose name
    /// fails its directory's pattern, and the kinds the filesystem layer
    /// reports for a directory that could not be read.
    pub fn validate(&self, path: &str) -> (r: Result<(), Vec<Error>>)
        ensures
            r matches Err(errs) ==> errs@.len() > 0,
    {
        let mut errors: Vec<Error> = Vec::new();
        let dir = match Dir::new(path) {
            Err(e) => {
                errors.push(e);
                return Err(errors);
            },
            Ok(d) => d,
        };
        let target = T::shape_describe();
        let found = validate_dir(dir, &target);
        if found.len() > 0 {
            return Err(found);
        }
        Ok(())
    }
}

} // verus!
