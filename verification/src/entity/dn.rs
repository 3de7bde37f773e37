//! Distinguished names: a list of relative names, most specific first.

use crate::entity::schema::Oid;
use crate::errors::{LdapError, LdapErrorView};
use crate::text::{join, join_spec, split, split_once, split_once_spec, split_spec, views_of};
use vstd::prelude::*;
use vstd::string::*;

verus! {

/// A relative distinguished name: one or more pairs of attribute identifier and value.
#[derive(Debug)]
pub struct Rdn(Vec<(Oid, String)>);

/// The text of one pair: identifier, `=`, value.
pub open spec fn render_pair(p: (Seq<char>, Seq<char>)) -> Seq<char> {
    p.0 + seq!['='] + p.1
}

/// The text of a relative name: its pairs joined by `+`.
pub open spec fn render_rdn(r: Seq<(Seq<char>, Seq<char>)>) -> Seq<char> {
    join_spec(r.map_values(|p: (Seq<char>, Seq<char>)| render_pair(p)), seq!['+'])
}

/// The text of a distinguished name: its relative names joined by `,`.
pub open spec fn render_dn(d: Seq<Seq<(Seq<char>, Seq<char>)>>) -> Seq<char> {
    join_spec(d.map_values(|r: Seq<(Seq<char>, Seq<char>)>| render_rdn(r)), seq![','])
}

/// The views of a list of pairs.
pub open spec fn pair_views(pairs: Seq<(Oid, String)>) -> Seq<(Seq<char>, Seq<char>)> {
    pairs.map_values(|p: (Oid, String)| (p.0@, p.1@))
}

impl View for Rdn {
    type V = Seq<(Seq<char>, Seq<char>)>;

    /// The pairs of identifier and value, in order.
    closed spec fn view(&self) -> Seq<(Seq<char>, Seq<char>)> {
        pair_views(self.0@)
    }
}

impl Clone for Rdn {
    fn clone(&self) -> (r: Self)
        ensures
            r@ == self@,
    {
        let mut pairs: Vec<(Oid, String)> = Vec::new();
        let mut i: usize = 0;
        while i < self.0.len()
            invariant
                i <= self.0.len(),
                pairs@.len() == i,
                forall|k: int| 0 <= k < i ==> pairs@[k].0@ == self.0@[k].0@ && pairs@[k].1@ == self.0@[k].1@,
            decreases self.0.len() - i,
        {
            pairs.push((self.0[i].0.clone(), self.0[i].1.clone()));
            i += 1;
        }
        let r = Rdn(pairs);
        assert(r@ =~= self@);
        r
    }
}

impl Default for Rdn {
    fn default() -> (r: Self)
        ensures
            r@ == Seq::<(Seq<char>, Seq<char>)>::empty(),
    {
        let r = Rdn(Vec::new());
        assert(r@ =~= Seq::<(Seq<char>, Seq<char>)>::empty());
        r
    }
}

impl<'a> From<(&'a str, &'a str)> for Rdn {
    fn from(value: (&'a str, &'a str)) -> (r: Rdn)
        ensures
            r@ == seq![(value.0@, value.1@)],
    {
        Rdn::single(Oid::new(value.0), String::from_str(value.1))
    }
}

impl<'a> vstd::std_specs::convert::FromSpecImpl<(&'a str, &'a str)> for Rdn {
    open spec fn obeys_from_spec() -> bool {
        false
    }

    open spec fn from_spec(v: (&'a str, &'a str)) -> Rdn {
        arbitrary()
    }
}

/// The views of a list of pairs of string slices.
pub open spec fn slice_pair_views(pairs: Seq<(&str, &str)>) -> Seq<(Seq<char>, Seq<char>)> {
    pairs.map_values(|p: (&str, &str)| (p.0@, p.1@))
}

impl<'a> From<Vec<(&'a str, &'a str)>> for Rdn {
    fn from(value: Vec<(&'a str, &'a str)>) -> (r: Rdn)
        ensures
            r@ == slice_pair_views(value@),
    {
        let mut pairs: Vec<(Oid, String)> = Vec::new();
        let mut i: usize = 0;
        while i < value.len()
            invariant
                i <= value.len(),
                pairs@.len() == i,
                forall|k: int| 0 <= k < i ==> pairs@[k].0@ == value@[k].0@ && pairs@[k].1@ == value@[k].1@,
            decreases value.len() - i,
        {
            pairs.push((Oid::new(value[i].0), String::from_str(value[i].1)));
            i += 1;
        }
        let r = Rdn(pairs);
        assert(r@ =~= slice_pair_views(value@));
        r
    }
}

impl<'a> vstd::std_specs::convert::FromSpecImpl<Vec<(&'a str, &'a str)>> for Rdn {
    open spec fn obeys_from_spec() -> bool {
        false
    }

    open spec fn from_spec(v: Vec<(&'a str, &'a str)>) -> Rdn {
        arbitrary()
    }
}

/// `i` is the place of the first piece without `=`.
pub open spec fn piece_lacks_equals_at(pieces: Seq<Seq<char>>, i: int) -> bool {
    &&& 0 <= i < pieces.len()
    &&& split_once_spec(pieces[i], '=') is None
    &&& forall|j: int| 0 <= j < i ==> split_once_spec(#[trigger] pieces[j], '=') is Some
}

/// The relative name that `text` spells out: its `+`-separated pieces,
/// each split at its first `=`; `None` where a piece has no `=`.
pub open spec fn parse_rdn(text: Seq<char>) -> Option<Seq<(Seq<char>, Seq<char>)>> {
    let pieces = split_spec(text, '+');
    if exists|i: int| piece_lacks_equals_at(pieces, i) {
        None
    } else {
        Some(pieces.map_values(|p: Seq<char>| split_once_spec(p, '=')->0))
    }
}

impl Rdn {
    /// Reads a relative name from its text, taking each name as an identifier.
    pub fn try_from(value: &str) -> (r: Result<Rdn, LdapError>)
        ensures
            match r {
                Ok(rdn) => parse_rdn(value@) == Some(rdn@),
                Err(e) => parse_rdn(value@) is None && e@ == (LdapErrorView::InvalidDN {
                    dn: value@,
                    msg: value@,
                }),
            },
    {
        let pieces = split(value, '+');
        let ghost ps = split_spec(value@, '+');
        let mut pairs: Vec<(Oid, String)> = Vec::new();
        let mut i: usize = 0;
        while i < pieces.len()
            invariant
                i <= pieces.len(),
                ps == views_of(pieces@),
                ps == split_spec(value@, '+'),
                pairs@.len() == i,
                forall|k: int| 0 <= k < i ==> split_once_spec(#[trigger] ps[k], '=') is Some,
                forall|k: int|
                    0 <= k < i ==> split_once_spec(ps[k], '=')->0 == ((#[trigger] pairs@[k]).0@, pairs@[k].1@),
            decreases pieces.len() - i,
        {
            assert(ps[i as int] == pieces@[i as int]@);
            match split_once(pieces[i], '=') {
                Some((a, v)) => {
                    pairs.push((Oid::new(a), String::from_str(v)));
                },
                None => {
                    assert(piece_lacks_equals_at(ps, i as int));
                    return Err(
                        LdapError::InvalidDN { dn: String::from_str(value), msg: String::from_str(value) },
                    );
                },
            }
            i += 1;
        }
        let rdn = Rdn(pairs);
        assert(rdn@ =~= ps.map_values(|p: Seq<char>| split_once_spec(p, '=')->0));
        Ok(rdn)
    }

    /// A relative name of the given pairs.
    pub fn from_pairs(pairs: Vec<(Oid, String)>) -> (r: Rdn)
        ensures
            r@ == pair_views(pairs@),
    {
        Rdn(pairs)
    }

    /// A relative name of one pair.
    pub fn single(oid: Oid, value: String) -> (r: Rdn)
        ensures
            r@ == seq![(oid@, value@)],
    {
        let mut pairs: Vec<(Oid, String)> = Vec::new();
        pairs.push((oid, value));
        let r = Rdn(pairs);
        assert(r@ =~= seq![(oid@, value@)]);
        r
    }

    /// The pairs of the relative name.
    pub fn get(&self) -> (r: &[(Oid, String)])
        ensures
            pair_views(r@) == self@,
    {
        self.0.as_slice()
    }

    /// The number of pairs.
    pub fn len(&self) -> (n: usize)
        ensures
            n == self@.len(),
    {
        self.0.len()
    }

    /// The identifier of the pair at position `i`.
    pub fn oid_at(&self, i: usize) -> (r: &Oid)
        requires
            i < self@.len(),
        ensures
            r@ == self@[i as int].0,
    {
        &self.0[i].0
    }

    /// The value of the pair at position `i`.
    pub fn value_at(&self, i: usize) -> (r: &String)
        requires
            i < self@.len(),
        ensures
            r@ == self@[i as int].1,
    {
        &self.0[i].1
    }

    /// The text of the relative name: `oid=value`, joined by `+`.
    pub fn to_string(&self) -> (r: String)
        ensures
            r@ == render_rdn(self@),
    {
        let mut parts: Vec<String> = Vec::new();
        let mut i: usize = 0;
        while i < self.0.len()
            invariant
                i <= self.0.len(),
                parts@.len() == i,
                forall|k: int| 0 <= k < i ==> parts@[k]@ == render_pair(self@[k]),
            decreases self.0.len() - i,
        {
            let mut part = self.0[i].0.to_string();
            proof {
                reveal_strlit("=");
                assert("="@ =~= seq!['=']);
            }
            part.append("=");
            part.append(self.0[i].1.as_str());
            parts.push(part);
            i += 1;
        }
        proof {
            reveal_strlit("+");
            assert("+"@ =~= seq!['+']);
            assert(crate::text::string_views(parts@) =~= self@.map_values(
                |p: (Seq<char>, Seq<char>)| render_pair(p),
            ));
        }
        join(&parts, "+")
    }
}

/// A distinguished name.
#[derive(Debug)]
pub struct DN {
    rdns: Vec<Rdn>,
}

/// The views of a list of relative names.
pub open spec fn rdn_views(rdns: Seq<Rdn>) -> Seq<Seq<(Seq<char>, Seq<char>)>> {
    rdns.map_values(|r: Rdn| r@)
}

impl View for DN {
    type V = Seq<Seq<(Seq<char>, Seq<char>)>>;

    /// The relative names, most specific first.
    closed spec fn view(&self) -> Seq<Seq<(Seq<char>, Seq<char>)>> {
        rdn_views(self.rdns@)
    }
}

impl Clone for DN {
    fn clone(&self) -> (r: Self)
        ensures
            r@ == self@,
    {
        let mut rdns: Vec<Rdn> = Vec::new();
        let mut i: usize = 0;
        while i < self.rdns.len()
            invariant
                i <= self.rdns.len(),
                rdns@.len() == i,
                forall|k: int| 0 <= k < i ==> rdns@[k]@ == self.rdns@[k]@,
            decreases self.rdns.len() - i,
        {
            rdns.push(self.rdns[i].clone());
            i += 1;
        }
        let r = DN { rdns };
        assert(r@ =~= self@);
        r
    }
}

impl Default for DN {
    fn default() -> (r: Self)
        ensures
            r@ == Seq::<Seq<(Seq<char>, Seq<char>)>>::empty(),
    {
        let r = DN { rdns: Vec::new() };
        assert(r@ =~= Seq::<Seq<(Seq<char>, Seq<char>)>>::empty());
        r
    }
}

impl DN {
    pub fn new(rdns: Vec<Rdn>) -> (r: DN)
        ensures
            r@ == rdn_views(rdns@),
    {
        DN { rdns }
    }

    /// Adds `rdn` as the least specific relative name.
    pub fn append(&mut self, rdn: Rdn)
        ensures
            final(self)@ == old(self)@.push(rdn@),
    {
        self.rdns.push(rdn);
        assert(self@ =~= old(self)@.push(rdn@));
    }

    /// The most specific relative name.
    pub fn first(&self) -> (r: Option<&Rdn>)
        ensures
            r is Some == (self@.len() > 0),
            r matches Some(rdn) ==> rdn@ == self@[0],
    {
        if self.rdns.len() > 0 {
            Some(&self.rdns[0])
        } else {
            None
        }
    }

    /// The relative names, most specific first.
    pub fn as_slice(&self) -> (r: &[Rdn])
        ensures
            rdn_views(r@) == self@,
    {
        self.rdns.as_slice()
    }

    /// The number of relative names.
    pub fn len(&self) -> (n: usize)
        ensures
            n == self@.len(),
    {
        self.rdns.len()
    }

    /// The name of the parent: this name without its most specific relative name.
    pub fn parent_dn(&self) -> (r: DN)
        ensures
            r@ == if self@.len() == 0 {
                self@
            } else {
                self@.drop_first()
            },
    {
        let mut rdns: Vec<Rdn> = Vec::new();
        let mut i: usize = 1;
        while i < self.rdns.len()
            invariant
                1 <= i,
                i <= self.rdns.len() || self.rdns.len() == 0,
                self.rdns.len() > 0 ==> rdns@.len() == i - 1,
                self.rdns.len() == 0 ==> rdns@.len() == 0,
                forall|k: int| 0 <= k < rdns@.len() ==> rdns@[k]@ == self.rdns@[k + 1]@,
            decreases self.rdns.len() - i,
        {
            rdns.push(self.rdns[i].clone());
            i += 1;
        }
        let r = DN { rdns };
        assert(r@ =~= if self@.len() == 0 {
            self@
        } else {
            self@.drop_first()
        });
        r
    }

    /// The text of the name: its relative names joined by `,`.
    pub fn to_string(&self) -> (r: String)
        ensures
            r@ == render_dn(self@),
    {
        let mut parts: Vec<String> = Vec::new();
        let mut i: usize = 0;
        while i < self.rdns.len()
            invariant
                i <= self.rdns.len(),
                parts@.len() == i,
                forall|k: int| 0 <= k < i ==> parts@[k]@ == render_rdn(self@[k]),
            decreases self.rdns.len() - i,
        {
            parts.push(self.rdns[i].to_string());
            i += 1;
        }
        proof {
            reveal_strlit(",");
            assert(","@ =~= seq![',']);
            assert(crate::text::string_views(parts@) =~= self@.map_values(
                |r: Seq<(Seq<char>, Seq<char>)>| render_rdn(r),
            ));
        }
        join(&parts, ",")
    }
}

} // verus!
