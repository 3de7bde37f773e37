//! The commands that the services carry out, and the requests that they are read from.

use crate::errors::{LdapError, LdapErrorView};
use crate::octets::{bytes_clone, bytes_to_vec, bytes_view, bytes_views};
use crate::sets::{add_values_spec, extend_spec, AttributeMap, StringSet};
use bytes::Bytes;
use vstd::prelude::*;
use vstd::string::*;
use vstd::utf8::{decode_utf8, valid_utf8};

verus! {

/// One attribute of an add request: its name and its values, as the bytes that were sent.
#[derive(Debug)]
pub struct PartialAttribute {
    pub attr_type: Bytes,
    pub vals: Vec<Bytes>,
}

/// An add request: the name of the new entry and its attributes, as the bytes that were sent.
#[derive(Debug)]
pub struct AddRequest {
    pub entry: Bytes,
    pub attributes: Vec<PartialAttribute>,
}

/// A [`PartialAttribute`] as plain values.
pub struct PartialAttributeView {
    pub attr_type: Seq<u8>,
    pub vals: Seq<Seq<u8>>,
}

/// An [`AddRequest`] as plain values.
pub struct AddRequestView {
    pub entry: Seq<u8>,
    pub attributes: Seq<PartialAttributeView>,
}

impl View for PartialAttribute {
    type V = PartialAttributeView;

    open spec fn view(&self) -> PartialAttributeView {
        PartialAttributeView {
            attr_type: bytes_view(self.attr_type),
            vals: bytes_views(self.vals@),
        }
    }
}

impl View for AddRequest {
    type V = AddRequestView;

    open spec fn view(&self) -> AddRequestView {
        AddRequestView {
            entry: bytes_view(self.entry),
            attributes: self.attributes@.map_values(|a: PartialAttribute| a@),
        }
    }
}

/// The request to add an entry: the text of its distinguished name, and its
/// attributes under the names that the client gave them.
#[derive(Debug)]
pub struct AddEntryCommand {
    pub dn: String,
    pub attributes: AttributeMap,
}

/// An [`AddEntryCommand`] as plain values.
pub struct AddEntryCommandView {
    pub dn: Seq<char>,
    pub attributes: Seq<(Seq<char>, Seq<Seq<char>>)>,
}

impl View for AddEntryCommand {
    type V = AddEntryCommandView;

    open spec fn view(&self) -> AddEntryCommandView {
        AddEntryCommandView { dn: self.dn@, attributes: self.attributes@ }
    }
}

/// `String::from_utf8`: the text that the bytes encode where they are
/// valid UTF-8, and nothing otherwise.
#[verifier::external_body]
fn utf8_string(bytes: Vec<u8>) -> (r: Option<String>)
    ensures
        match r {
            Some(s) => valid_utf8(bytes@) && s@ == decode_utf8(bytes@),
            None => !valid_utf8(bytes@),
        },
{
    match String::from_utf8(bytes) {
        Ok(s) => Some(s),
        Err(_) => None,
    }
}

/// Why an attribute of a request cannot be read as text.
pub open spec fn attribute_fault(a: PartialAttributeView) -> Option<Seq<char>> {
    if !valid_utf8(a.attr_type) {
        Some("Attribute key not UTF-8"@)
    } else if exists|i: int| 0 <= i < a.vals.len() && !valid_utf8(#[trigger] a.vals[i]) {
        Some("Attribute value not UTF-8"@)
    } else {
        None
    }
}

/// `i` is the place of the first attribute that cannot be read as text.
pub open spec fn attribute_fails_at(attrs: Seq<PartialAttributeView>, i: int) -> bool {
    &&& 0 <= i < attrs.len()
    &&& attribute_fault(attrs[i]) is Some
    &&& forall|j: int| 0 <= j < i ==> attribute_fault(#[trigger] attrs[j]) is None
}

/// The values of an attribute as text, each once.
pub open spec fn decoded_values(vals: Seq<Seq<u8>>) -> Seq<Seq<char>> {
    extend_spec(Seq::empty(), vals.map_values(|v: Seq<u8>| decode_utf8(v)))
}

/// `m` with the values of each attribute of `attrs` added under its name.
/// An attribute that recurs adds to the values that its name has already.
pub open spec fn gathered(
    m: Seq<(Seq<char>, Seq<Seq<char>>)>,
    attrs: Seq<PartialAttributeView>,
) -> Seq<(Seq<char>, Seq<Seq<char>>)>
    decreases attrs.len(),
{
    if attrs.len() == 0 {
        m
    } else {
        gathered(
            add_values_spec(m, decode_utf8(attrs[0].attr_type), decoded_values(attrs[0].vals)),
            attrs.drop_first(),
        )
    }
}

/// The command that a request stands for, or the error where one of its fields is not UTF-8.
pub open spec fn command_spec(req: AddRequestView) -> Result<AddEntryCommandView, LdapErrorView> {
    if !valid_utf8(req.entry) {
        Err(LdapErrorView::InvalidAddRequest { name: req.entry, msg: "DN entry not UTF-8 encoded"@ })
    } else if exists|i: int| attribute_fails_at(req.attributes, i) {
        Err(
            LdapErrorView::InvalidAddRequest {
                name: req.entry,
                msg: attribute_fault(
                    req.attributes[choose|i: int| attribute_fails_at(req.attributes, i)],
                )->0,
            },
        )
    } else {
        Ok(
            AddEntryCommandView {
                dn: decode_utf8(req.entry),
                attributes: gathered(Seq::empty(), req.attributes),
            },
        )
    }
}

/// The values of an attribute as text, each once; `None` where one is not UTF-8.
fn decode_values(vals: &Vec<Bytes>) -> (r: Option<StringSet>)
    ensures
        match r {
            Some(set) => set.wf() && set@ == decoded_values(bytes_views(vals@)) && forall|i: int|
                0 <= i < vals@.len() ==> valid_utf8(bytes_view(#[trigger] vals@[i])),
            None => exists|i: int| 0 <= i < vals@.len() && !valid_utf8(bytes_view(#[trigger] vals@[i])),
        },
{
    let ghost texts = bytes_views(vals@).map_values(|v: Seq<u8>| decode_utf8(v));
    let mut set = StringSet::new();
    let mut i: usize = 0;
    proof {
        assert(texts.skip(0) =~= texts);
    }
    while i < vals.len()
        invariant
            i <= vals.len(),
            set.wf(),
            texts == bytes_views(vals@).map_values(|v: Seq<u8>| decode_utf8(v)),
            forall|k: int| 0 <= k < i ==> valid_utf8(bytes_view(#[trigger] vals@[k])),
            extend_spec(set@, texts.skip(i as int)) == extend_spec(Seq::empty(), texts),
        decreases vals.len() - i,
    {
        proof {
            assert(texts.skip(i as int).drop_first() =~= texts.skip(i as int + 1));
            assert(texts.skip(i as int)[0] == decode_utf8(bytes_view(vals@[i as int])));
        }
        match utf8_string(bytes_to_vec(&vals[i])) {
            Some(text) => {
                set.insert(text);
            },
            None => {
                return None;
            },
        }
        i += 1;
    }
    proof {
        assert(texts.skip(i as int) =~= Seq::<Seq<char>>::empty());
    }
    Some(set)
}

impl AddEntryCommand {
    /// Reads a command from a request: every field is decoded as UTF-8, and
    /// the values of an attribute that recurs are gathered under its name.
    pub fn try_from(value: &AddRequest) -> (r: Result<AddEntryCommand, LdapError>)
        ensures
            match r {
                Ok(c) => command_spec(value@) == Ok::<AddEntryCommandView, LdapErrorView>(c@)
                    && c.attributes.wf(),
                Err(e) => command_spec(value@) == Err::<AddEntryCommandView, LdapErrorView>(e@),
            },
    {
        let dn = match utf8_string(bytes_to_vec(&value.entry)) {
            Some(dn) => dn,
            None => {
                return Err(
                    LdapError::InvalidAddRequest {
                        name: bytes_clone(&value.entry),
                        msg: String::from_str("DN entry not UTF-8 encoded"),
                    },
                );
            },
        };
        let ghost attrs = value@.attributes;
        let mut attributes = AttributeMap::new();
        let mut i: usize = 0;
        proof {
            assert(attrs.skip(0) =~= attrs);
        }
        while i < value.attributes.len()
            invariant
                i <= value.attributes.len(),
                attrs == value@.attributes,
                valid_utf8(value@.entry),
                attributes.wf(),
                forall|k: int| 0 <= k < i ==> attribute_fault(#[trigger] attrs[k]) is None,
                gathered(attributes@, attrs.skip(i as int)) == gathered(Seq::empty(), attrs),
            decreases value.attributes.len() - i,
        {
            let attr = &value.attributes[i];
            proof {
                assert(attrs.skip(i as int).drop_first() =~= attrs.skip(i as int + 1));
                assert(attrs.skip(i as int)[0] == attr@);
                assert(attrs[i as int] == attr@);
            }
            let name = match utf8_string(bytes_to_vec(&attr.attr_type)) {
                Some(name) => name,
                None => {
                    assert(attribute_fails_at(attrs, i as int));
                    return Err(
                        LdapError::InvalidAddRequest {
                            name: bytes_clone(&value.entry),
                            msg: String::from_str("Attribute key not UTF-8"),
                        },
                    );
                },
            };
            let values = match decode_values(&attr.vals) {
                Some(values) => values,
                None => {
                    proof {
                        let w = choose|w: int|
                            0 <= w < attr.vals@.len() && !valid_utf8(bytes_view(#[trigger] attr.vals@[w]));
                        assert(!valid_utf8(attr@.vals[w]));
                        assert(attribute_fails_at(attrs, i as int));
                    }
                    return Err(
                        LdapError::InvalidAddRequest {
                            name: bytes_clone(&value.entry),
                            msg: String::from_str("Attribute value not UTF-8"),
                        },
                    );
                },
            };
            proof {
                assert forall|w: int| 0 <= w < attr@.vals.len() implies valid_utf8(#[trigger] attr@.vals[w]) by {
                    assert(attr@.vals[w] == bytes_view(attr.vals@[w]));
                }
            }
            attributes.add_values(name, &values);
            i += 1;
        }
        proof {
            assert(attrs.skip(i as int) =~= Seq::<PartialAttributeView>::empty());
        }
        Ok(AddEntryCommand { dn, attributes })
    }
}

} // verus!
