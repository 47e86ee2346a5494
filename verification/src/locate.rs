//! The search for the declaration that code is generated for.
//!
//! The search is depth-first and pre-order. It never enters a declaration
//! that was written in an included file, it stops descending at a matching
//! declaration, and among siblings the last one that holds a match wins.

use vstd::prelude::*;
use crate::tree::{models, opt_text, Decl, Node, NodeKind, Origin};

verus! {

/// What the search hands to the emitter: the type's display name and the
/// names of its direct data members, in declaration order.
#[derive(Debug)]
pub struct SearchResult {
    pub object_type: String,
    pub fields: Vec<String>,
}

/// The model of a [`SearchResult`].
pub ghost struct Found {
    pub object_type: Seq<char>,
    pub fields: Seq<Seq<char>>,
}

/// The texts of a sequence of strings, in order.
pub open spec fn texts(names: Seq<String>) -> Seq<Seq<char>> {
    names.map_values(|s: String| s@)
}

impl View for SearchResult {
    type V = Found;

    open spec fn view(&self) -> Found {
        Found { object_type: self.object_type@, fields: texts(self.fields@) }
    }
}

/// The model of an optional search result.
pub open spec fn opt_found(r: Option<SearchResult>) -> Option<Found> {
    match r {
        Some(s) => Some(s@),
        None => None,
    }
}

/// The name that stands for a data member without a name.
pub open spec fn unnamed_field() -> Seq<char> {
    "unknown"@
}

/// A declaration written in an included file: the search does not enter it.
pub open spec fn is_pruned(d: Decl) -> bool {
    d.origin == Some(Origin::Included)
}

/// A structural match: a class or struct whose display name is `target` and
/// which is known to be written in the primary file. An absent name equals no
/// target, and a declaration without a source location is never a match.
pub open spec fn is_match(d: Decl, target: Seq<char>) -> bool {
    (d.kind == NodeKind::Class || d.kind == NodeKind::Struct) && d.name == Some(target)
        && d.origin == Some(Origin::Primary)
}

/// The name under which a data member is dumped.
pub open spec fn field_label(d: Decl) -> Seq<char> {
    match d.name {
        Some(n) => n,
        None => unnamed_field(),
    }
}

/// The label of `d` where it is a data member, and nothing where it is not.
pub open spec fn member_label(d: Decl) -> Option<Seq<char>> {
    if d.kind == NodeKind::Field {
        Some(field_label(d))
    } else {
        None
    }
}

/// The labels of the data members among `children`, in the children's order.
/// Nothing is removed from them: a name that occurs twice stays twice.
pub open spec fn field_labels(children: Seq<Decl>) -> Seq<Seq<char>> {
    children.filter_map(|c: Decl| member_label(c))
}

/// What the search returns for the tree under `d`.
pub open spec fn locate(d: Decl, target: Seq<char>) -> Option<Found>
    decreases d, d.children.len() + 1,
{
    if is_pruned(d) {
        None
    } else if is_match(d, target) {
        Some(found_at(d))
    } else {
        locate_among(d, target, d.children.len())
    }
}

/// What the search returns for the first `n` children of `d`: the result of
/// the last of them that holds a match.
pub open spec fn locate_among(d: Decl, target: Seq<char>, n: nat) -> Option<Found>
    decreases d, n,
{
    if n == 0 || n > d.children.len() {
        None
    } else {
        match locate(d.children[n - 1], target) {
            Some(f) => Some(f),
            None => locate_among(d, target, (n - 1) as nat),
        }
    }
}

/// The search from `d` reaches a match: `d` is not written in an included
/// file, and it is a structural match itself or the search from one of its
/// children reaches one.
pub open spec fn has_match(d: Decl, target: Seq<char>) -> bool
    decreases d,
{
    !is_pruned(d) && (is_match(d, target) || exists|i: int|
        0 <= i < d.children.len() && has_match(#[trigger] d.children[i], target))
}

/// The display name of the type of `d`, empty where `d` has no type.
pub open spec fn type_label(d: Decl) -> Seq<char> {
    match d.type_display {
        Some(t) => t,
        None => Seq::empty(),
    }
}

/// What the search returns at a match: the display name of its type and the
/// labels of its direct data members.
pub open spec fn found_at(d: Decl) -> Found {
    Found { object_type: type_label(d), fields: field_labels(d.children) }
}

/// Every structural match that the search from `d` comes to has a type.
pub open spec fn matches_typed(d: Decl, target: Seq<char>) -> bool
    decreases d,
{
    is_pruned(d) || if is_match(d, target) {
        d.type_display.is_some()
    } else {
        forall|i: int|
            0 <= i < d.children.len() ==> matches_typed(#[trigger] d.children[i], target)
    }
}

/// The declaration reached from `d` by going, step by step, to the child at
/// the next index of `path`.
pub open spec fn descendant(d: Decl, path: Seq<int>) -> Decl
    decreases path.len(),
{
    if path.len() == 0 {
        d
    } else {
        descendant(d.children[path[0]], path.drop_first())
    }
}

/// The search from `d` goes down along `path` to its end: no declaration on
/// the path was written in an included file, and none above the end is a
/// structural match.
pub open spec fn search_enters(d: Decl, path: Seq<int>, target: Seq<char>) -> bool
    decreases path.len(),
{
    !is_pruned(d) && (path.len() == 0 || (!is_match(d, target) && 0 <= path[0]
        < d.children.len() && search_enters(d.children[path[0]], path.drop_first(), target)))
}

fn is_record(kind: NodeKind) -> (r: bool)
    ensures
        r == (kind == NodeKind::Class || kind == NodeKind::Struct),
{
    match kind {
        NodeKind::Class => true,
        NodeKind::Struct => true,
        _ => false,
    }
}

fn is_field(kind: NodeKind) -> (r: bool)
    ensures
        r == (kind == NodeKind::Field),
{
    match kind {
        NodeKind::Field => true,
        _ => false,
    }
}

/// Whether a declaration with this location was written in an included
/// file. The search reads nothing below such a declaration.
pub fn is_included(location: &Option<Origin>) -> (r: bool)
    ensures
        r == (*location == Some(Origin::Included)),
{
    match location {
        Some(Origin::Included) => true,
        _ => false,
    }
}

fn is_primary(location: &Option<Origin>) -> (r: bool)
    ensures
        r == (*location == Some(Origin::Primary)),
{
    match location {
        Some(Origin::Primary) => true,
        _ => false,
    }
}

fn name_equals(display_name: &Option<String>, target: &String) -> (r: bool)
    ensures
        r == (opt_text(*display_name) == Some(target@)),
{
    match display_name {
        Some(n) => *n == *target,
        None => false,
    }
}

/// The labels of the data members among `children`, in declaration order.
pub fn collect_fields(children: &Vec<Node>) -> (fields: Vec<String>)
    ensures
        texts(fields@) == field_labels(models(children@)),
{
    let ghost decls = models(children@);
    let mut fields: Vec<String> = Vec::new();
    let mut i: usize = 0;
    assert(texts(fields@) =~= field_labels(decls.take(0)));
    while i < children.len()
        invariant
            i <= children.len(),
            decls == models(children@),
            texts(fields@) == field_labels(decls.take(i as int)),
        decreases children.len() - i,
    {
        let child = &children[i];
        let ghost before = fields@;
        if is_field(child.kind) {
            let label = match &child.display_name {
                Some(n) => n.clone(),
                None => "unknown".to_owned(),
            };
            fields.push(label);
            assert(texts(fields@) =~= texts(before).push(label@));
        }
        proof {
            let longer = decls.take(i + 1);
            assert(longer.drop_last() =~= decls.take(i as int));
            assert(longer.last() == child@);
            assert(texts(fields@) =~= field_labels(longer));
        }
        i += 1;
    }
    assert(decls.take(children@.len() as int) =~= decls);
    fields
}

fn locate_from(ent: &Node, target: &String) -> (res: Option<SearchResult>)
    ensures
        opt_found(res) == locate(ent@, target@),
    decreases ent,
{
    proof {
        ent.lemma_view_children();
    }
    if is_included(&ent.location) {
        return None;
    }
    if is_record(ent.kind) && name_equals(&ent.display_name, target) && is_primary(
        &ent.location,
    ) {
        let fields = collect_fields(&ent.children);
        let object_type = match &ent.type_display {
            Some(t) => t.clone(),
            None => String::new(),
        };
        Some(SearchResult { object_type, fields })
    } else {
        let mut res: Option<SearchResult> = None;
        let mut i: usize = 0;
        while i < ent.children.len()
            invariant
                i <= ent.children.len(),
                ent@.children == models(ent.children@),
                opt_found(res) == locate_among(ent@, target@, i as nat),
            decreases ent.children.len() - i,
        {
            let sub = locate_from(&ent.children[i], target);
            if sub.is_some() {
                res = sub;
            }
            i += 1;
        }
        res
    }
}

fn typed_from(ent: &Node, target: &String) -> (ok: bool)
    ensures
        ok == matches_typed(ent@, target@),
    decreases ent,
{
    proof {
        ent.lemma_view_children();
    }
    if is_included(&ent.location) {
        return true;
    }
    if is_record(ent.kind) && name_equals(&ent.display_name, target) && is_primary(
        &ent.location,
    ) {
        return ent.type_display.is_some();
    }
    let mut i: usize = 0;
    while i < ent.children.len()
        invariant
            i <= ent.children.len(),
            ent@.children == models(ent.children@),
            !is_pruned(ent@),
            !is_match(ent@, target@),
            forall|k: int| 0 <= k < i ==> matches_typed(#[trigger] ent@.children[k], target@),
        decreases ent.children.len() - i,
    {
        if !typed_from(&ent.children[i], target) {
            assert(!matches_typed(ent@.children[i as int], target@));
            return false;
        }
        i += 1;
    }
    true
}

/// Whether every structural match that the search for `name` comes to under
/// `ent` has a type. Where this fails, the search may hand out an empty type
/// name.
pub fn has_typed_matches(ent: &Node, name: &str) -> (ok: bool)
    ensures
        ok == matches_typed(ent@, name@),
{
    let target = name.to_owned();
    typed_from(ent, &target)
}

/// Searches the tree under `ent` for the class or struct named `name`.
///
/// Returns `None` exactly when the tree holds no match that the search can
/// reach; otherwise the type's display name and the labels of the direct
/// data members of the match that wins.
pub fn gen_fields_list(ent: &Node, name: &str) -> (res: Option<SearchResult>)
    ensures
        opt_found(res) == locate(ent@, name@),
        res.is_none() <==> !has_match(ent@, name@),
{
    let target = name.to_owned();
    let res = locate_from(ent, &target);
    proof {
        lemma_none_iff_no_match(ent@, name@);
    }
    res
}

/// The search comes back empty exactly when no match can be reached.
pub proof fn lemma_none_iff_no_match(d: Decl, target: Seq<char>)
    ensures
        locate(d, target).is_none() <==> !has_match(d, target),
    decreases d, d.children.len() + 1,
{
    if !is_pruned(d) && !is_match(d, target) {
        lemma_among_none_iff(d, target, d.children.len());
    }
}

/// Among the first `n` children the search comes back empty exactly when
/// none of them holds a match that can be reached.
pub proof fn lemma_among_none_iff(d: Decl, target: Seq<char>, n: nat)
    requires
        n <= d.children.len(),
    ensures
        locate_among(d, target, n).is_none() <==> forall|i: int|
            0 <= i < n ==> !has_match(#[trigger] d.children[i], target),
    decreases d, n,
{
    if n > 0 {
        lemma_none_iff_no_match(d.children[n - 1], target);
        lemma_among_none_iff(d, target, (n - 1) as nat);
    }
}

/// A declaration written in an included file is never a match and hides
/// everything below it, whatever its kind and name.
pub proof fn lemma_included_never_matched(d: Decl, target: Seq<char>)
    requires
        d.origin == Some(Origin::Included),
    ensures
        locate(d, target).is_none(),
        !has_match(d, target),
{
}

/// A structural match is the result of the search from it: its type's
/// display name and the labels of its data members.
pub proof fn lemma_match_at_root(d: Decl, target: Seq<char>)
    requires
        is_match(d, target),
    ensures
        locate(d, target) == Some(found_at(d)),
{
}

/// A declaration without a source location is entered but is never the
/// result, whatever its kind and name: the search from it is the search among
/// its children.
pub proof fn lemma_unlocated_never_matched(d: Decl, target: Seq<char>)
    requires
        d.origin.is_none(),
    ensures
        !is_match(d, target),
        locate(d, target) == locate_among(d, target, d.children.len()),
        d.children.len() == 0 ==> locate(d, target).is_none(),
{
}

/// Among the first `n` children, the result is that of the child at `j`
/// when that child holds a match and no child after it does.
pub proof fn lemma_among_last_wins(d: Decl, target: Seq<char>, n: nat, j: int)
    requires
        0 <= j < n <= d.children.len(),
        locate(d.children[j], target).is_some(),
        forall|k: int| j < k < n ==> locate(#[trigger] d.children[k], target).is_none(),
    ensures
        locate_among(d, target, n) == locate(d.children[j], target),
    decreases n,
{
    if j < n - 1 {
        assert(locate(d.children[n - 1], target).is_none());
        lemma_among_last_wins(d, target, (n - 1) as nat, j);
    }
}

/// Below a declaration that is entered and is no match itself, the last
/// child that holds a match decides the result.
pub proof fn lemma_last_sibling_wins(d: Decl, target: Seq<char>, j: int)
    requires
        !is_pruned(d),
        !is_match(d, target),
        0 <= j < d.children.len(),
        locate(d.children[j], target).is_some(),
        forall|k: int|
            j < k < d.children.len() ==> locate(#[trigger] d.children[k], target).is_none(),
    ensures
        locate(d, target) == locate(d.children[j], target),
{
    lemma_among_last_wins(d, target, d.children.len(), j);
}

/// Where the search among the first `n` children finds something, it is the
/// result of the child at the returned index, and no later child among them
/// holds a match.
pub proof fn lemma_among_winner(d: Decl, target: Seq<char>, n: nat) -> (j: int)
    requires
        n <= d.children.len(),
        locate_among(d, target, n).is_some(),
    ensures
        0 <= j < n,
        locate(d.children[j], target).is_some(),
        locate_among(d, target, n) == locate(d.children[j], target),
        forall|k: int| j < k < n ==> locate(#[trigger] d.children[k], target).is_none(),
    decreases n,
{
    if locate(d.children[n - 1], target).is_some() {
        n - 1
    } else {
        lemma_among_winner(d, target, (n - 1) as nat)
    }
}

/// A structural match to which the search goes down makes the search
/// succeed.
pub proof fn lemma_entered_match_is_found(d: Decl, path: Seq<int>, target: Seq<char>)
    requires
        search_enters(d, path, target),
        is_match(descendant(d, path), target),
    ensures
        has_match(d, target),
        locate(d, target).is_some(),
    decreases path.len(),
{
    if path.len() > 0 {
        lemma_entered_match_is_found(d.children[path[0]], path.drop_first(), target);
    }
    lemma_none_iff_no_match(d, target);
}

/// Whatever the search returns was taken from a structural match to which
/// the search went down: the returned path leads to it through declarations
/// that are not written in an included file, and the match itself is written
/// in the primary file. Where every match that the search comes to has a
/// type, the type name handed out is that of this match.
pub proof fn lemma_result_is_a_match(d: Decl, target: Seq<char>) -> (path: Seq<int>)
    requires
        locate(d, target).is_some(),
    ensures
        search_enters(d, path, target),
        is_match(descendant(d, path), target),
        descendant(d, path).origin == Some(Origin::Primary),
        locate(d, target) == Some(found_at(descendant(d, path))),
        matches_typed(d, target) ==> descendant(d, path).type_display == Some(
            locate(d, target).unwrap().object_type,
        ),
    decreases d,
{
    if is_match(d, target) {
        Seq::empty()
    } else {
        let j = lemma_among_winner(d, target, d.children.len());
        let below = lemma_result_is_a_match(d.children[j], target);
        let path = seq![j] + below;
        assert(path.drop_first() =~= below);
        path
    }
}

} // verus!
