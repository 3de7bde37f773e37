//! The shape of the tree: every entry but the root is a child of its
//! parent, and the add-entry transaction keeps it so.

use crate::db::{
    fresh_root, lemma_store, lemma_store_members, repo_get, repo_has, repo_index, repo_wf,
    store_spec, with_root, SchemaView,
};
use crate::entity::dn::render_dn;
use crate::entity::entry::{entry_wf, EntryId, EntryView};
use crate::errors::LdapErrorView;
use crate::service::entry::{
    add_checked, add_spec, find_from_root, lemma_built_attrs_wf, lemma_found_is_stored,
    lemma_with_root, parent_of, stored_in, with_child, FindView,
};
use crate::service::schema::dn_result;
use crate::sets::lemma_extend_members;
use vstd::prelude::*;

verus! {

/// The parent of `e` is stored and has `e` among its children.
pub open spec fn child_of_parent<V>(repo: Seq<EntryView<V>>, e: EntryView<V>) -> bool {
    match repo_get(repo, e.parent) {
        Some(p) => e.id is Some && p.children.contains(e.id->0),
        None => false,
    }
}

/// Every entry but the root is a child of its parent.
pub open spec fn linked<ID: EntryId>(repo: Seq<EntryView<ID::V>>) -> bool {
    forall|i: int|
        0 <= i < repo.len() && (#[trigger] repo[i]).id != Some(ID::root_view()) ==> child_of_parent(
            repo,
            repo[i],
        )
}

/// An add-entry transaction that fails stores nothing but a missing root.
pub proof fn lemma_failed_add_stores_nothing<ID: EntryId>(
    s: SchemaView,
    repo: Seq<EntryView<ID::V>>,
    dn_text: Seq<char>,
    attrs: Seq<(Seq<char>, Seq<Seq<char>>)>,
    fresh: ID::V,
)
    requires
        add_spec::<ID>(s, repo, dn_text, attrs, fresh).result is Err,
    ensures
        add_spec::<ID>(s, repo, dn_text, attrs, fresh).repo == repo || add_spec::<ID>(
            s,
            repo,
            dn_text,
            attrs,
            fresh,
        ).repo == with_root::<ID>(repo),
{
}

/// An add-entry transaction for a name whose parent is not found fails
/// with the part of the name at which the search ended, and stores nothing
/// but a missing root.
pub proof fn lemma_add_without_parent<ID: EntryId>(
    s: SchemaView,
    repo: Seq<EntryView<ID::V>>,
    dn_text: Seq<char>,
    attrs: Seq<(Seq<char>, Seq<Seq<char>>)>,
    fresh: ID::V,
)
    requires
        dn_result(s.attributes, dn_text) is Ok,
        find_from_root::<ID>(with_root::<ID>(repo), dn_result(s.attributes, dn_text)->Ok_0) matches Ok(
            FindView::NotFound(_),
        ),
        find_from_root::<ID>(
            with_root::<ID>(repo),
            parent_of(dn_result(s.attributes, dn_text)->Ok_0),
        ) matches Ok(FindView::NotFound(_)),
    ensures
        add_spec::<ID>(s, repo, dn_text, attrs, fresh).repo == with_root::<ID>(repo),
        add_spec::<ID>(s, repo, dn_text, attrs, fresh).result == Err::<
            EntryView<ID::V>,
            LdapErrorView,
        >(
            LdapErrorView::EntryDoesNotExists {
                dn: render_dn(
                    find_from_root::<ID>(
                        with_root::<ID>(repo),
                        parent_of(dn_result(s.attributes, dn_text)->Ok_0),
                    )->Ok_0->NotFound_0,
                ),
            },
        ),
{
}

/// Storing a missing root keeps every entry a child of its parent.
proof fn lemma_root_keeps_linkage<ID: EntryId>(repo: Seq<EntryView<ID::V>>)
    requires
        repo_wf(repo),
        linked::<ID>(repo),
    ensures
        linked::<ID>(with_root::<ID>(repo)),
{
    let rooted = with_root::<ID>(repo);
    if !repo_has(repo, ID::root_view()) {
        let root = fresh_root::<ID>();
        assert(store_spec(repo, root) == rooted);
        lemma_store(repo, root);
        assert forall|i: int|
            0 <= i < rooted.len() && (#[trigger] rooted[i]).id != Some(ID::root_view()) implies child_of_parent(
            rooted,
            rooted[i],
        ) by {
            assert(rooted[i] == repo[i]);
            assert(child_of_parent(repo, repo[i]));
        }
    }
}

/// The add-entry transaction keeps every entry but the root a child of its
/// parent, where the identifier of the new entry is not in use.
pub proof fn lemma_add_keeps_linkage<ID: EntryId>(
    s: SchemaView,
    repo: Seq<EntryView<ID::V>>,
    dn_text: Seq<char>,
    attrs: Seq<(Seq<char>, Seq<Seq<char>>)>,
    fresh: ID::V,
)
    requires
        repo_wf(repo),
        linked::<ID>(repo),
        !repo_has(with_root::<ID>(repo), fresh),
    ensures
        linked::<ID>(add_spec::<ID>(s, repo, dn_text, attrs, fresh).repo),
{
    let out = add_spec::<ID>(s, repo, dn_text, attrs, fresh);
    let rooted = with_root::<ID>(repo);
    lemma_with_root::<ID>(repo);
    lemma_root_keeps_linkage::<ID>(repo);
    if out.result is Ok {
        let dn = dn_result(s.attributes, dn_text)->Ok_0;
        let checked = add_checked::<ID>(s, rooted, dn_text, dn, attrs);
        let parent = checked->Ok_0.0;
        let entry = checked->Ok_0.1;
        let stored = EntryView { id: Some(fresh), ..entry };
        let grown = with_child(parent, fresh);
        lemma_built_attrs_wf::<ID>(s, rooted, dn_text, dn, attrs);
        lemma_extend_members(
            Seq::empty(),
            crate::sets::value_of(attrs, "objectClass"@).map_values(
                |n: Seq<char>| crate::db::class_by_name(s.object_classes, n)->0.numericoid,
            ),
        );
        lemma_found_is_stored::<ID>(rooted, repo_get(rooted, ID::root_view())->0, parent_of(dn));
        assert(stored_in(rooted, parent));
        let at = repo_index(rooted, parent.id->0);
        assert(rooted[at] == parent);
        assert(entry_wf(stored));
        assert(entry_wf(grown));
        let mid = store_spec(rooted, stored);
        let last = store_spec(mid, grown);
        lemma_store(rooted, stored);
        lemma_store(mid, grown);
        lemma_store_members(rooted, stored);
        lemma_store_members(mid, grown);
        assert(parent.id->0 != fresh);
        assert(repo_get(last, parent.id->0) == Some(grown));
        assert(grown.children.contains(fresh)) by {
            if !parent.children.contains(fresh) {
                assert(grown.children[parent.children.len() as int] == fresh);
            }
        }
        assert forall|c: ID::V| parent.children.contains(c) implies grown.children.contains(c) by {
            let k = choose|k: int| 0 <= k < parent.children.len() && parent.children[k] == c;
            assert(grown.children[k] == c);
        }
        assert forall|x: EntryView<ID::V>|
            x.id is Some && child_of_parent(rooted, x) implies child_of_parent(last, x) by {
            let o = x.parent;
            if o == parent.id->0 {
            } else if o == fresh {
            } else {
                assert(repo_get(mid, o) == repo_get(rooted, o));
                assert(repo_get(last, o) == repo_get(mid, o));
            }
        }
        assert forall|i: int|
            0 <= i < last.len() && (#[trigger] last[i]).id != Some(ID::root_view()) implies child_of_parent(
            last,
            last[i],
        ) by {
            if last[i] == grown {
                assert(child_of_parent(rooted, parent));
                assert(child_of_parent(last, parent));
            } else {
                let j = choose|j: int| 0 <= j < mid.len() && mid[j] == last[i];
                if mid[j] == stored {
                } else {
                    let k = choose|k: int| 0 <= k < rooted.len() && rooted[k] == mid[j];
                    assert(child_of_parent(rooted, rooted[k]));
                }
            }
        }
    }
}

} // verus!
