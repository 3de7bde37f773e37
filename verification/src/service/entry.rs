//! The entry service: finding entries by their distinguished names, and adding entries to the tree.

use crate::commands::AddEntryCommand;
use crate::db::{
    repo_get, repo_has, repo_wf, store_spec, with_root, EntryRepository, SchemaView,
};
use crate::entity::dn::{rdn_views, render_dn, Rdn, DN};
use crate::entity::entry::{
    empty_entry, id_str_spec, matches_spec, Entry, EntryId, EntryView,
};
use crate::errors::{LdapError, LdapErrorView};
use crate::service::schema::{
    attributes_result, dn_result, obj_classes_result, validation_fault, SchemaService,
};
use std::marker::PhantomData;
use crate::sets::{add_values_spec, attrs_wf, AttributeMap};
use crate::text::concat2;
use vstd::prelude::*;
use vstd::string::*;

verus! {

/// The outcome of looking for a distinguished name: the entry, or the part
/// of the name at which the search ended.
#[derive(Debug)]
pub enum FindDnResult<ID: EntryId> {
    Found(Entry<ID>),
    NotFound(DN),
}

/// A [`FindDnResult`] as plain values.
pub enum FindView<V> {
    Found(EntryView<V>),
    NotFound(Seq<Seq<(Seq<char>, Seq<char>)>>),
}

impl<ID: EntryId> View for FindDnResult<ID> {
    type V = FindView<ID::V>;

    open spec fn view(&self) -> FindView<ID::V> {
        match self {
            FindDnResult::Found(e) => FindView::Found(e@),
            FindDnResult::NotFound(dn) => FindView::NotFound(dn@),
        }
    }
}

impl<ID: EntryId> FindDnResult<ID> {
    pub fn is_found(&self) -> (r: bool)
        ensures
            r == (self@ is Found),
    {
        matches!(self, FindDnResult::Found(_))
    }
}

/// The error of an entry that names a child which is not stored.
pub open spec fn dangling_child<ID: EntryId>(curr: EntryView<ID::V>, child: ID::V) -> LdapErrorView {
    LdapErrorView::InvalidEntry {
        id: id_str_spec::<ID>(curr.id),
        msg: "Entry has supposed child "@ + ID::text_of(child) + " but could not find"@,
    }
}

/// The search for `rdns` (most specific first) in the tree below `curr`.
/// `curr` answers to the last relative name, one of its children to the one
/// before, and so on; the first child that leads to an entry wins.
pub open spec fn find_spec<ID: EntryId>(
    repo: Seq<EntryView<ID::V>>,
    curr: EntryView<ID::V>,
    rdns: Seq<Seq<(Seq<char>, Seq<char>)>>,
) -> Result<FindView<ID::V>, LdapErrorView>
    decreases rdns.len(), 1int, 0int,
{
    if rdns.len() == 0 {
        Ok(FindView::NotFound(Seq::empty()))
    } else if rdns.len() == 1 {
        if matches_spec(curr.attributes, rdns[0]) {
            Ok(FindView::Found(curr))
        } else {
            Ok(FindView::NotFound(Seq::empty()))
        }
    } else if !matches_spec(curr.attributes, rdns.last()) {
        Ok(FindView::NotFound(Seq::empty()))
    } else {
        scan_spec::<ID>(repo, curr, rdns, 0)
    }
}

/// The search among the children of `curr` from the `k`-th on.
pub open spec fn scan_spec<ID: EntryId>(
    repo: Seq<EntryView<ID::V>>,
    curr: EntryView<ID::V>,
    rdns: Seq<Seq<(Seq<char>, Seq<char>)>>,
    k: int,
) -> Result<FindView<ID::V>, LdapErrorView>
    decreases rdns.len(), 0int, curr.children.len() - k,
{
    if rdns.len() == 0 || k < 0 || k >= curr.children.len() {
        Ok(FindView::NotFound(seq![rdns.last()]))
    } else {
        match repo_get(repo, curr.children[k]) {
            None => Err(dangling_child::<ID>(curr, curr.children[k])),
            Some(child) => match find_spec::<ID>(repo, child, rdns.drop_last()) {
                Err(e) => Err(e),
                Ok(FindView::Found(e)) => Ok(FindView::Found(e)),
                Ok(FindView::NotFound(_)) => scan_spec::<ID>(repo, curr, rdns, k + 1),
            },
        }
    }
}

/// `e` is stored in `repo` under its identifier.
pub open spec fn stored_in<V>(repo: Seq<EntryView<V>>, e: EntryView<V>) -> bool {
    e.id is Some && repo_get(repo, e.id->0) == Some(e)
}

/// A search that starts at a stored entry finds only stored entries.
pub proof fn lemma_found_is_stored<ID: EntryId>(
    repo: Seq<EntryView<ID::V>>,
    curr: EntryView<ID::V>,
    rdns: Seq<Seq<(Seq<char>, Seq<char>)>>,
)
    requires
        stored_in(repo, curr),
    ensures
        find_spec::<ID>(repo, curr, rdns) matches Ok(FindView::Found(e)) ==> stored_in(repo, e),
    decreases rdns.len(), 1int, 0int,
{
    if rdns.len() >= 2 && matches_spec(curr.attributes, rdns.last()) {
        lemma_scan_is_stored::<ID>(repo, curr, rdns, 0);
    }
}

/// A scan of the children of a stored entry finds only stored entries.
pub proof fn lemma_scan_is_stored<ID: EntryId>(
    repo: Seq<EntryView<ID::V>>,
    curr: EntryView<ID::V>,
    rdns: Seq<Seq<(Seq<char>, Seq<char>)>>,
    k: int,
)
    requires
        stored_in(repo, curr),
    ensures
        scan_spec::<ID>(repo, curr, rdns, k) matches Ok(FindView::Found(e)) ==> stored_in(repo, e),
    decreases rdns.len(), 0int, curr.children.len() - k,
{
    if rdns.len() == 0 || k < 0 || k >= curr.children.len() {
    } else {
        match repo_get(repo, curr.children[k]) {
            None => {},
            Some(child) => {
                lemma_found_is_stored::<ID>(repo, child, rdns.drop_last());
                lemma_scan_is_stored::<ID>(repo, curr, rdns, k + 1);
            },
        }
    }
}

/// `m` with each value of `rdn` added under its attribute.
pub open spec fn with_rdn(
    m: Seq<(Seq<char>, Seq<Seq<char>>)>,
    rdn: Seq<(Seq<char>, Seq<char>)>,
) -> Seq<(Seq<char>, Seq<Seq<char>>)>
    decreases rdn.len(),
{
    if rdn.len() == 0 {
        m
    } else {
        with_rdn(add_values_spec(m, rdn[0].0, seq![rdn[0].1]), rdn.drop_first())
    }
}

/// `m` with the values of each attribute of `more` added under it.
pub open spec fn with_attrs(
    m: Seq<(Seq<char>, Seq<Seq<char>>)>,
    more: Seq<(Seq<char>, Seq<Seq<char>>)>,
) -> Seq<(Seq<char>, Seq<Seq<char>>)>
    decreases more.len(),
{
    if more.len() == 0 {
        m
    } else {
        with_attrs(add_values_spec(m, more[0].0, more[0].1), more.drop_first())
    }
}

/// The entry that an add request asks for, before it has an identifier: the
/// object classes, the values of its own relative name, then the attributes
/// of the request, below `parent`.
pub open spec fn built_entry<ID: EntryId>(
    oc: Seq<Seq<char>>,
    rdn: Seq<(Seq<char>, Seq<char>)>,
    attrs: Seq<(Seq<char>, Seq<Seq<char>>)>,
    parent: ID::V,
) -> EntryView<ID::V> {
    EntryView {
        parent,
        object_classes: oc,
        attributes: with_attrs(with_rdn(Seq::empty(), rdn), attrs),
        ..empty_entry::<ID>()
    }
}

/// `e` with `child` among its children.
pub open spec fn with_child<V>(e: EntryView<V>, child: V) -> EntryView<V> {
    EntryView {
        children: if e.children.contains(child) {
            e.children
        } else {
            e.children.push(child)
        },
        ..e
    }
}

/// A distinguished name without its most specific relative name.
pub open spec fn parent_of(dn: Seq<Seq<(Seq<char>, Seq<char>)>>) -> Seq<Seq<(Seq<char>, Seq<char>)>> {
    if dn.len() == 0 {
        dn
    } else {
        dn.drop_first()
    }
}

/// What adding an entry comes to: the entry or the error, and the repository afterwards.
pub struct AddOutcome<V> {
    pub result: Result<EntryView<V>, LdapErrorView>,
    pub repo: Seq<EntryView<V>>,
}

/// The add-entry transaction on the repository `repo` under the schema `s`,
/// for a request of the name `dn_text` and the attributes `attrs`, where the
/// new entry gets the identifier `fresh`.
pub open spec fn add_spec<ID: EntryId>(
    s: SchemaView,
    repo: Seq<EntryView<ID::V>>,
    dn_text: Seq<char>,
    attrs: Seq<(Seq<char>, Seq<Seq<char>>)>,
    fresh: ID::V,
) -> AddOutcome<ID::V> {
    match dn_result(s.attributes, dn_text) {
        Err(e) => AddOutcome { result: Err(e), repo },
        Ok(dn) => {
            let rooted = with_root::<ID>(repo);
            match add_checked::<ID>(s, rooted, dn_text, dn, attrs) {
                Err(e) => AddOutcome { result: Err(e), repo: rooted },
                Ok((parent, entry)) => {
                    let stored = EntryView { id: Some(fresh), ..entry };
                    AddOutcome {
                        result: Ok(stored),
                        repo: store_spec(store_spec(rooted, stored), with_child(parent, fresh)),
                    }
                },
            }
        },
    }
}

/// The checks of the add-entry transaction: the parent and the entry to
/// store, or the first error. The name must be free, its parent must exist,
/// the names of the request must be known, and the entry must satisfy the schema.
pub open spec fn add_checked<ID: EntryId>(
    s: SchemaView,
    rooted: Seq<EntryView<ID::V>>,
    dn_text: Seq<char>,
    dn: Seq<Seq<(Seq<char>, Seq<char>)>>,
    attrs: Seq<(Seq<char>, Seq<Seq<char>>)>,
) -> Result<(EntryView<ID::V>, EntryView<ID::V>), LdapErrorView> {
    match find_from_root::<ID>(rooted, dn) {
        Err(e) => Err(e),
        Ok(FindView::Found(_)) => Err(LdapErrorView::EntryAlreadyExists { dn: dn_text }),
        Ok(FindView::NotFound(_)) => match find_from_root::<ID>(rooted, parent_of(dn)) {
            Err(e) => Err(e),
            Ok(FindView::NotFound(partial)) => Err(
                LdapErrorView::EntryDoesNotExists { dn: render_dn(partial) },
            ),
            Ok(FindView::Found(parent)) => match obj_classes_result(s.object_classes, attrs) {
                Err(e) => Err(e),
                Ok(oc) => match attributes_result(s.attributes, attrs) {
                    Err(e) => Err(e),
                    Ok(named) => {
                        let entry = built_entry::<ID>(oc, dn[0], named, parent.id->0);
                        match validation_fault(s, "No ID"@, entry.object_classes, entry.attributes) {
                            Some(e) => Err(e),
                            None => Ok((parent, entry)),
                        }
                    },
                },
            },
        },
    }
}

/// Adding values keeps the attributes well formed.
pub proof fn lemma_add_values_wf(
    m: Seq<(Seq<char>, Seq<Seq<char>>)>,
    k: Seq<char>,
    vs: Seq<Seq<char>>,
)
    requires
        attrs_wf(m),
    ensures
        attrs_wf(add_values_spec(m, k, vs)),
{
    let before = crate::sets::value_of(m, k);
    let v = crate::sets::extend_spec(before, vs);
    if crate::sets::has_key(m, k) {
        assert(m[crate::sets::index_of_key(m, k)].1.no_duplicates());
    }
    crate::sets::lemma_extend_members(before, vs);
    crate::sets::lemma_put(m, k, v);
    let p = crate::sets::put_spec(m, k, v);
    assert forall|i: int| 0 <= i < p.len() implies (#[trigger] p[i]).1.no_duplicates() by {
        if i < m.len() && p[i] != (k, v) {
            assert(p[i] == m[i]);
        }
    }
}

/// The values of a relative name keep the attributes well formed.
pub proof fn lemma_with_rdn_wf(m: Seq<(Seq<char>, Seq<Seq<char>>)>, rdn: Seq<(Seq<char>, Seq<char>)>)
    requires
        attrs_wf(m),
    ensures
        attrs_wf(with_rdn(m, rdn)),
    decreases rdn.len(),
{
    if rdn.len() > 0 {
        lemma_add_values_wf(m, rdn[0].0, seq![rdn[0].1]);
        lemma_with_rdn_wf(add_values_spec(m, rdn[0].0, seq![rdn[0].1]), rdn.drop_first());
    }
}

/// The attributes of a request keep the attributes well formed.
pub proof fn lemma_with_attrs_wf(
    m: Seq<(Seq<char>, Seq<Seq<char>>)>,
    more: Seq<(Seq<char>, Seq<Seq<char>>)>,
)
    requires
        attrs_wf(m),
    ensures
        attrs_wf(with_attrs(m, more)),
    decreases more.len(),
{
    if more.len() > 0 {
        lemma_add_values_wf(m, more[0].0, more[0].1);
        lemma_with_attrs_wf(add_values_spec(m, more[0].0, more[0].1), more.drop_first());
    }
}

/// The entry that passes the checks of the add-entry transaction has well-formed attributes.
pub proof fn lemma_built_attrs_wf<ID: EntryId>(
    s: SchemaView,
    rooted: Seq<EntryView<ID::V>>,
    dn_text: Seq<char>,
    dn: Seq<Seq<(Seq<char>, Seq<char>)>>,
    attrs: Seq<(Seq<char>, Seq<Seq<char>>)>,
)
    requires
        add_checked::<ID>(s, rooted, dn_text, dn, attrs) is Ok,
    ensures
        attrs_wf(add_checked::<ID>(s, rooted, dn_text, dn, attrs)->Ok_0.1.attributes),
{
    let named = attributes_result(s.attributes, attrs)->Ok_0;
    lemma_with_rdn_wf(Seq::empty(), dn[0]);
    lemma_with_attrs_wf(with_rdn(Seq::empty(), dn[0]), named);
}

/// The view of the result of adding an entry.
pub open spec fn result_view<ID: EntryId>(r: Result<Entry<ID>, LdapError>) -> Result<
    EntryView<ID::V>,
    LdapErrorView,
> {
    match r {
        Ok(e) => Ok(e@),
        Err(e) => Err(e@),
    }
}

/// Storing the root where it is missing leaves a repository that has a stored root.
pub proof fn lemma_with_root<ID: EntryId>(repo: Seq<EntryView<ID::V>>)
    requires
        repo_wf(repo),
    ensures
        repo_wf(with_root::<ID>(repo)),
        repo_has(with_root::<ID>(repo), ID::root_view()),
        with_root::<ID>(with_root::<ID>(repo)) == with_root::<ID>(repo),
        stored_in(with_root::<ID>(repo), repo_get(with_root::<ID>(repo), ID::root_view())->0),
{
    let r = with_root::<ID>(repo);
    if !repo_has(repo, ID::root_view()) {
        assert(r[repo.len() as int].id == Some(ID::root_view()));
        assert(store_spec(repo, crate::db::fresh_root::<ID>()) == r);
        crate::db::lemma_store(repo, crate::db::fresh_root::<ID>());
    }
}

/// The tree of entries: finding an entry by its name, and adding one.
pub trait EntryService<ID: EntryId> {
    /// The stored entries.
    spec fn repo(&self) -> Seq<EntryView<ID::V>>;

    /// The schema that entries are held to.
    spec fn schema(&self) -> SchemaView;

    /// Adds the entry that `command` asks for, under a new random identifier.
    fn add_entry(&mut self, command: AddEntryCommand) -> (r: Result<Entry<ID>, LdapError>)
        requires
            repo_wf(old(self).repo()),
            crate::db::schema_wf(old(self).schema()),
            command.attributes.wf(),
        ensures
            repo_wf(final(self).repo()),
            final(self).schema() == old(self).schema(),
            exists|fresh: ID::V| #[trigger]
                add_spec::<ID>(
                    old(self).schema(),
                    old(self).repo(),
                    command.dn@,
                    command.attributes@,
                    fresh,
                ) == (AddOutcome { result: result_view(r), repo: final(self).repo() }),
    ;

    /// The search for `dn` from the root of the tree. Where no root is
    /// stored, an empty one is stored first.
    fn find_by_dn(&mut self, dn: &DN) -> (r: Result<FindDnResult<ID>, LdapError>)
        requires
            repo_wf(old(self).repo()),
            crate::db::schema_wf(old(self).schema()),
        ensures
            repo_wf(final(self).repo()),
            final(self).schema() == old(self).schema(),
            final(self).repo() == with_root::<ID>(old(self).repo()),
            match r {
                Ok(f) => find_from_root::<ID>(final(self).repo(), dn@) == Ok::<
                    FindView<ID::V>,
                    LdapErrorView,
                >(f@),
                Err(e) => find_from_root::<ID>(final(self).repo(), dn@) == Err::<
                    FindView<ID::V>,
                    LdapErrorView,
                >(e@),
            },
    ;
}

/// The entry service: the tree of entries, held to the schema.
pub struct EntryServiceImpl<'a, ID, S, R> where ID: EntryId, S: SchemaService, R: EntryRepository<ID> {
    schema_service: &'a S,
    entry_repo: R,
    _entry_id_type: PhantomData<ID>,
}

impl<'a, ID, S, R> EntryServiceImpl<'a, ID, S, R> where
    ID: EntryId,
    S: SchemaService,
    R: EntryRepository<ID>,
 {
    /// The repository and the schema are well formed.
    pub open spec fn wf(&self) -> bool {
        repo_wf(self.repo()) && crate::db::schema_wf(self.schema())
    }

    pub fn new(schema_service: &'a S, entry_repo: R) -> (r: Self)
        ensures
            r.repo() == entry_repo.entries(),
            r.schema() == schema_service.schema(),
    {
        EntryServiceImpl { schema_service, entry_repo, _entry_id_type: PhantomData }
    }

    /// The repository of the service.
    pub fn entries(&self) -> (r: &R)
        ensures
            r.entries() == self.repo(),
    {
        &self.entry_repo
    }

    /// The search for the first `n` relative names of `rdns` below `curr_entry`.
    fn find_upto(&self, curr_entry: Entry<ID>, rdns: &[Rdn], n: usize) -> (r: Result<
        FindDnResult<ID>,
        LdapError,
    >)
        requires
            self.wf(),
            curr_entry.wf(),
            n <= rdns@.len(),
        ensures
            match r {
                Ok(f) => find_spec::<ID>(self.repo(), curr_entry@, rdn_views(rdns@).take(n as int))
                    == Ok::<FindView<ID::V>, LdapErrorView>(f@),
                Err(e) => find_spec::<ID>(self.repo(), curr_entry@, rdn_views(rdns@).take(n as int))
                    == Err::<FindView<ID::V>, LdapErrorView>(e@),
            },
        decreases n,
    {
        let ghost rs = rdn_views(rdns@).take(n as int);
        let ghost repo = self.repo();
        if n == 0 {
            return Ok(FindDnResult::NotFound(DN::default()));
        }
        if n == 1 {
            return if curr_entry.matches_rdn(&rdns[0]) {
                Ok(FindDnResult::Found(curr_entry))
            } else {
                Ok(FindDnResult::NotFound(DN::default()))
            };
        }
        assert(rs.last() == rdns@[n - 1]@);
        if !curr_entry.matches_rdn(&rdns[n - 1]) {
            return Ok(FindDnResult::NotFound(DN::default()));
        }
        let children = curr_entry.get_children();
        let mut k: usize = 0;
        proof {
            assert(rs.drop_last() =~= rdn_views(rdns@).take(n - 1));
            assert(find_spec::<ID>(repo, curr_entry@, rs) == scan_spec::<ID>(repo, curr_entry@, rs, 0));
        }
        while k < children.len()
            invariant
                k <= children@.len(),
                find_spec::<ID>(repo, curr_entry@, rs) == scan_spec::<ID>(repo, curr_entry@, rs, 0),
                self.wf(),
                curr_entry.wf(),
                2 <= n <= rdns@.len(),
                repo == self.repo(),
                rs == rdn_views(rdns@).take(n as int),
                rs.drop_last() == rdn_views(rdns@).take(n - 1),
                crate::entity::entry::id_views(children@) == curr_entry@.children,
                scan_spec::<ID>(repo, curr_entry@, rs, k as int) == scan_spec::<ID>(
                    repo,
                    curr_entry@,
                    rs,
                    0,
                ),
            decreases children@.len() - k,
        {
            assert(curr_entry@.children[k as int] == children@[k as int]@);
            let child = match self.entry_repo.get_by_id(&children[k]) {
                Some(c) => c,
                None => {
                    let mut msg = concat2("Entry has supposed child ", children[k].id_text().as_str());
                    msg.append(" but could not find");
                    return Err(LdapError::InvalidEntry { id: curr_entry.get_id_str(), msg });
                },
            };
            match self.find_upto(child, rdns, n - 1) {
                Err(e) => {
                    return Err(e);
                },
                Ok(FindDnResult::Found(e)) => {
                    return Ok(FindDnResult::Found(e));
                },
                Ok(FindDnResult::NotFound(_)) => {},
            }
            k += 1;
        }
        let mut dn = DN::default();
        dn.append(rdns[n - 1].clone());
        assert(dn@ =~= seq![rs.last()]);
        Ok(FindDnResult::NotFound(dn))
    }

    /// The search for `rdns` (most specific first) in the tree below `curr_entry`.
    pub fn find_dn_recursive(&self, curr_entry: Entry<ID>, rdns: &[Rdn]) -> (r: Result<
        FindDnResult<ID>,
        LdapError,
    >)
        requires
            self.wf(),
            curr_entry.wf(),
        ensures
            match r {
                Ok(f) => find_spec::<ID>(self.repo(), curr_entry@, rdn_views(rdns@)) == Ok::<
                    FindView<ID::V>,
                    LdapErrorView,
                >(f@),
                Err(e) => find_spec::<ID>(self.repo(), curr_entry@, rdn_views(rdns@)) == Err::<
                    FindView<ID::V>,
                    LdapErrorView,
                >(e@),
            },
    {
        proof {
            assert(rdn_views(rdns@).take(rdns@.len() as int) =~= rdn_views(rdns@));
        }
        self.find_upto(curr_entry, rdns, rdns.len())
    }

    /// The attributes of a new entry: the values of its relative name, then
    /// the attributes of the request.
    fn build_attributes(rdn: &Rdn, named: &AttributeMap) -> (r: AttributeMap)
        requires
            named.wf(),
        ensures
            r.wf(),
            r@ == with_attrs(with_rdn(Seq::empty(), rdn@), named@),
    {
        let mut attributes = AttributeMap::new();
        let mut i: usize = 0;
        proof {
            assert(rdn@.skip(0) =~= rdn@);
        }
        while i < rdn.len()
            invariant
                i <= rdn@.len(),
                attributes.wf(),
                with_rdn(attributes@, rdn@.skip(i as int)) == with_rdn(Seq::empty(), rdn@),
            decreases rdn@.len() - i,
        {
            proof {
                assert(rdn@.skip(i as int).drop_first() =~= rdn@.skip(i as int + 1));
            }
            attributes.add_value(rdn.oid_at(i).to_string(), rdn.value_at(i).clone());
            i += 1;
        }
        proof {
            assert(rdn@.skip(i as int) =~= Seq::<(Seq<char>, Seq<char>)>::empty());
            assert(named@.skip(0) =~= named@);
        }
        let mut j: usize = 0;
        while j < named.len()
            invariant
                j <= named@.len(),
                attributes.wf(),
                named.wf(),
                with_attrs(attributes@, named@.skip(j as int)) == with_attrs(
                    with_rdn(Seq::empty(), rdn@),
                    named@,
                ),
            decreases named@.len() - j,
        {
            proof {
                assert(named@.skip(j as int).drop_first() =~= named@.skip(j as int + 1));
            }
            attributes.add_values(named.key_at(j).clone(), named.values_at(j));
            j += 1;
        }
        proof {
            assert(named@.skip(j as int) =~= Seq::<(Seq<char>, Seq<Seq<char>>)>::empty());
        }
        attributes
    }

    /// The checks of the add-entry transaction: the parent and the entry to
    /// store, or the first error.
    fn check_add(&mut self, command: &AddEntryCommand, dn: &DN) -> (r: Result<
        (Entry<ID>, Entry<ID>),
        LdapError,
    >)
        requires
            old(self).wf(),
            command.attributes.wf(),
            dn@.len() >= 1,
        ensures
            final(self).wf(),
            final(self).schema() == old(self).schema(),
            final(self).repo() == with_root::<ID>(old(self).repo()),
            match r {
                Ok((parent, entry)) => add_checked::<ID>(
                    old(self).schema(),
                    final(self).repo(),
                    command.dn@,
                    dn@,
                    command.attributes@,
                ) == Ok::<(EntryView<ID::V>, EntryView<ID::V>), LdapErrorView>((parent@, entry@))
                    && parent.wf() && entry.wf() && parent@.id is Some,
                Err(e) => add_checked::<ID>(
                    old(self).schema(),
                    final(self).repo(),
                    command.dn@,
                    dn@,
                    command.attributes@,
                ) == Err::<(EntryView<ID::V>, EntryView<ID::V>), LdapErrorView>(e@),
            },
    {
        proof {
            lemma_with_root::<ID>(self.repo());
        }
        match self.find_by_dn(dn) {
            Err(e) => {
                return Err(e);
            },
            Ok(FindDnResult::Found(_)) => {
                return Err(LdapError::EntryAlreadyExists { dn: command.dn.clone() });
            },
            Ok(FindDnResult::NotFound(_)) => {},
        }
        let parent_dn = dn.parent_dn();
        let parent = match self.find_by_dn(&parent_dn) {
            Err(e) => {
                return Err(e);
            },
            Ok(FindDnResult::NotFound(not_found_dn)) => {
                return Err(LdapError::EntryDoesNotExists { dn: not_found_dn.to_string() });
            },
            Ok(FindDnResult::Found(parent)) => parent,
        };
        proof {
            lemma_found_is_stored::<ID>(
                self.repo(),
                repo_get(self.repo(), ID::root_view())->0,
                parent_of(dn@),
            );
        }
        let entry_object_classes = match self.schema_service.get_normalised_obj_classes(
            &command.attributes,
        ) {
            Ok(oc) => oc,
            Err(e) => {
                return Err(e);
            },
        };
        let entry_attributes = match self.schema_service.get_normalised_attributes(
            &command.attributes,
        ) {
            Ok(named) => named,
            Err(e) => {
                return Err(e);
            },
        };
        let rdn = match dn.first() {
            Some(rdn) => rdn,
            None => vstd::pervasive::unreached(),
        };
        let parent_id = match parent.get_id() {
            Some(id) => id,
            None => vstd::pervasive::unreached(),
        };
        let attributes = Self::build_attributes(rdn, &entry_attributes);
        let mut entry: Entry<ID> = Entry::new(entry_object_classes, attributes);
        entry.set_parent(parent_id);
        assert(entry@ == built_entry::<ID>(
            entry_object_classes@,
            dn@[0],
            entry_attributes@,
            parent@.id->0,
        ));
        match self.schema_service.validate_entry(&entry) {
            Ok(_) => {},
            Err(e) => {
                return Err(e);
            },
        }
        Ok((parent, entry))
    }

    /// Adds the entry that `command` asks for, and gives it the identifier `fresh`.
    ///
    /// The name of the command must be free and its parent must exist; the
    /// names of object classes and attributes must be known; the entry must
    /// satisfy the schema. Then the entry is stored and becomes a child of
    /// its parent. On an error nothing is stored but a missing root.
    pub fn add_entry_with_id(&mut self, command: AddEntryCommand, fresh: ID) -> (r: Result<
        Entry<ID>,
        LdapError,
    >)
        requires
            old(self).wf(),
            command.attributes.wf(),
        ensures
            final(self).wf(),
            final(self).schema() == old(self).schema(),
            add_spec::<ID>(
                old(self).schema(),
                old(self).repo(),
                command.dn@,
                command.attributes@,
                fresh@,
            ) == (AddOutcome { result: result_view(r), repo: final(self).repo() }),
    {
        let dn = match self.schema_service.create_normalised_dn(command.dn.as_str()) {
            Ok(dn) => dn,
            Err(e) => {
                return Err(e);
            },
        };
        proof {
            crate::text::lemma_split_nonempty(command.dn@, ',');
        }
        let (parent, entry) = match self.check_add(&command, &dn) {
            Ok(pair) => pair,
            Err(e) => {
                return Err(e);
            },
        };
        let entry = self.entry_repo.save_with_id(entry, fresh.clone_id());
        let mut parent = parent;
        parent.add_child(fresh);
        match self.entry_repo.save(parent) {
            Ok(_) => Ok(entry),
            Err(e) => Err(e),
        }
    }
}

impl<'a, ID, S, R> EntryService<ID> for EntryServiceImpl<'a, ID, S, R> where
    ID: EntryId,
    S: SchemaService,
    R: EntryRepository<ID>,
 {
    closed spec fn repo(&self) -> Seq<EntryView<ID::V>> {
        self.entry_repo.entries()
    }

    closed spec fn schema(&self) -> SchemaView {
        self.schema_service.schema()
    }

    /// The search for `dn` from the root of the tree. Where no root is
    /// stored, an empty one is stored first.
    fn find_by_dn(&mut self, dn: &DN) -> (r: Result<FindDnResult<ID>, LdapError>) {
        let root = self.entry_repo.get_root_entry();
        self.find_dn_recursive(root, dn.as_slice())
    }

    /// Adds the entry that `command` asks for, under a new random identifier.
    fn add_entry(&mut self, command: AddEntryCommand) -> (r: Result<Entry<ID>, LdapError>) {
        let fresh = ID::new_random_id();
        let ghost witness = fresh@;
        let r = self.add_entry_with_id(command, fresh);
        assert(add_spec::<ID>(
            old(self).schema(),
            old(self).repo(),
            command.dn@,
            command.attributes@,
            witness,
        ) == (AddOutcome { result: result_view(r), repo: self.repo() }));
        r
    }
}

/// The search for `dn` from the stored root.
pub open spec fn find_from_root<ID: EntryId>(
    repo: Seq<EntryView<ID::V>>,
    dn: Seq<Seq<(Seq<char>, Seq<char>)>>,
) -> Result<FindView<ID::V>, LdapErrorView> {
    find_spec::<ID>(repo, repo_get(repo, ID::root_view())->0, dn)
}

} // verus!
