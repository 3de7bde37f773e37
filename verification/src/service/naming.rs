//! Reading back the text of a distinguished name: what was rendered is what is read.

use crate::db::attr_by_name;
use crate::entity::dn::{render_dn, render_pair, render_rdn};
use crate::entity::schema::AttributeView;
use crate::errors::LdapErrorView;
use crate::service::schema::{dn_result, pair_result, piece_fails_at, rdn_fails_at, rdn_result};
use crate::text::{join_spec, split_spec};
use vstd::prelude::*;

verus! {

/// A pair that can be read back from its text: its identifier holds none of
/// `,`, `+` and `=`, its value none of `,` and `+`, and the schema has the
/// identifier as a name of the attribute type that it identifies.
pub open spec fn pair_reads_back(sa: Seq<AttributeView>, p: (Seq<char>, Seq<char>)) -> bool {
    &&& !p.0.contains(',')
    &&& !p.0.contains('+')
    &&& !p.0.contains('=')
    &&& !p.1.contains(',')
    &&& !p.1.contains('+')
    &&& attr_by_name(sa, p.0) is Some
    &&& attr_by_name(sa, p.0)->0.numericoid == p.0
}

/// A relative name that can be read back from its text: it has a pair, and each pair reads back.
pub open spec fn rdn_reads_back(sa: Seq<AttributeView>, r: Seq<(Seq<char>, Seq<char>)>) -> bool {
    &&& r.len() >= 1
    &&& forall|j: int| 0 <= j < r.len() ==> pair_reads_back(sa, #[trigger] r[j])
}

/// A distinguished name that can be read back from its text: it has a
/// relative name, and each relative name reads back.
pub open spec fn dn_reads_back(sa: Seq<AttributeView>, d: Seq<Seq<(Seq<char>, Seq<char>)>>) -> bool {
    &&& d.len() >= 1
    &&& forall|i: int| 0 <= i < d.len() ==> rdn_reads_back(sa, #[trigger] d[i])
}

/// The first `sep` of `a`, `sep`, `b` stands right after `a`, where `a` holds none.
proof fn lemma_first_sep(a: Seq<char>, sep: char, b: Seq<char>)
    requires
        !a.contains(sep),
    ensures
        (a + seq![sep] + b).index_of_first(sep) == Some(a.len() as int),
        (a + seq![sep] + b).subrange(0, a.len() as int) == a,
        (a + seq![sep] + b).subrange(a.len() as int + 1, (a + seq![sep] + b).len() as int) == b,
{
    let s = a + seq![sep] + b;
    s.index_of_first_ensures(sep);
    assert(s[a.len() as int] == sep);
    assert(s.contains(sep));
    let i = s.index_of_first(sep)->0;
    if i < a.len() {
        assert(a[i] == sep);
    }
    assert(s.subrange(0, a.len() as int) =~= a);
    assert(s.subrange(a.len() as int + 1, s.len() as int) =~= b);
}

/// Joined pieces hold no `c`, where no piece does and the separator is another character.
proof fn lemma_join_free(parts: Seq<Seq<char>>, sep: char, c: char)
    requires
        c != sep,
        forall|i: int| 0 <= i < parts.len() ==> !(#[trigger] parts[i]).contains(c),
    ensures
        !join_spec(parts, seq![sep]).contains(c),
    decreases parts.len(),
{
    let j = join_spec(parts, seq![sep]);
    if parts.len() == 0 {
    } else if parts.len() == 1 {
    } else {
        let rest = parts.drop_first();
        assert forall|i: int| 0 <= i < rest.len() implies !(#[trigger] rest[i]).contains(c) by {
            assert(rest[i] == parts[i + 1]);
        }
        lemma_join_free(rest, sep, c);
        let tail = join_spec(rest, seq![sep]);
        if j.contains(c) {
            let i = choose|i: int| 0 <= i < j.len() && j[i] == c;
            if i < parts[0].len() {
                assert(parts[0][i] == c);
            } else if i == parts[0].len() {
            } else {
                assert(tail[i - parts[0].len() - 1] == c);
            }
        }
    }
}

/// Splitting what was joined gives the pieces back, where no piece holds the separator.
pub proof fn lemma_split_join(parts: Seq<Seq<char>>, sep: char)
    requires
        parts.len() >= 1,
        forall|i: int| 0 <= i < parts.len() ==> !(#[trigger] parts[i]).contains(sep),
    ensures
        split_spec(join_spec(parts, seq![sep]), sep) == parts,
    decreases parts.len(),
{
    let j = join_spec(parts, seq![sep]);
    if parts.len() == 1 {
        j.index_of_first_ensures(sep);
        assert(split_spec(j, sep) =~= parts);
    } else {
        let rest = parts.drop_first();
        assert forall|i: int| 0 <= i < rest.len() implies !(#[trigger] rest[i]).contains(sep) by {
            assert(rest[i] == parts[i + 1]);
        }
        lemma_split_join(rest, sep);
        lemma_first_sep(parts[0], sep, join_spec(rest, seq![sep]));
        assert(split_spec(j, sep) =~= parts);
    }
}

/// The text of a pair that reads back holds neither `,` nor `+`, and is read as the pair.
proof fn lemma_pair_reads_back(sa: Seq<AttributeView>, rdn: Seq<char>, p: (Seq<char>, Seq<char>))
    requires
        pair_reads_back(sa, p),
    ensures
        !render_pair(p).contains(','),
        !render_pair(p).contains('+'),
        pair_result(sa, rdn, render_pair(p)) == Ok::<(Seq<char>, Seq<char>), Seq<char>>(p),
{
    let t = render_pair(p);
    lemma_first_sep(p.0, '=', p.1);
    assert forall|c: char| c != '=' && !p.0.contains(c) && !p.1.contains(c) implies !t.contains(c) by {
        if t.contains(c) {
            let i = choose|i: int| 0 <= i < t.len() && t[i] == c;
            if i < p.0.len() {
                assert(p.0[i] == c);
            } else if i == p.0.len() {
            } else {
                assert(p.1[i - p.0.len() - 1] == c);
            }
        }
    }
}

/// The text of a relative name that reads back holds no `,`, and is read as the relative name.
proof fn lemma_rdn_reads_back(sa: Seq<AttributeView>, r: Seq<(Seq<char>, Seq<char>)>)
    requires
        rdn_reads_back(sa, r),
    ensures
        !render_rdn(r).contains(','),
        rdn_result(sa, render_rdn(r)) == Ok::<Seq<(Seq<char>, Seq<char>)>, Seq<char>>(r),
{
    let text = render_rdn(r);
    let pieces = r.map_values(|p: (Seq<char>, Seq<char>)| render_pair(p));
    assert forall|j: int| 0 <= j < pieces.len() implies !(#[trigger] pieces[j]).contains(',')
        && !pieces[j].contains('+') && pair_result(sa, text, pieces[j]) == Ok::<
        (Seq<char>, Seq<char>),
        Seq<char>,
    >(r[j]) by {
        lemma_pair_reads_back(sa, text, r[j]);
    }
    lemma_join_free(pieces, '+', ',');
    lemma_split_join(pieces, '+');
    assert(split_spec(text, '+') == pieces);
    assert(!exists|i: int| piece_fails_at(sa, text, pieces, i));
    assert(pieces.map_values(|p: Seq<char>| pair_result(sa, text, p)->Ok_0) =~= r);
}

/// Reading the text of a distinguished name gives the name back, where
/// the name reads back: `,`, `+` and `=` stand only where rendering puts
/// them, and each identifier is a name of its own attribute type.
pub proof fn lemma_dn_round_trip(sa: Seq<AttributeView>, d: Seq<Seq<(Seq<char>, Seq<char>)>>)
    requires
        dn_reads_back(sa, d),
    ensures
        dn_result(sa, render_dn(d)) == Ok::<Seq<Seq<(Seq<char>, Seq<char>)>>, LdapErrorView>(d),
{
    let text = render_dn(d);
    let parts = d.map_values(|r: Seq<(Seq<char>, Seq<char>)>| render_rdn(r));
    assert forall|i: int| 0 <= i < parts.len() implies !(#[trigger] parts[i]).contains(',')
        && rdn_result(sa, parts[i]) == Ok::<Seq<(Seq<char>, Seq<char>)>, Seq<char>>(d[i]) by {
        lemma_rdn_reads_back(sa, d[i]);
    }
    lemma_split_join(parts, ',');
    assert(split_spec(text, ',') == parts);
    assert(!exists|i: int| rdn_fails_at(sa, parts, i));
    assert(parts.map_values(|p: Seq<char>| rdn_result(sa, p)->Ok_0) =~= d);
}

} // verus!
