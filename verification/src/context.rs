//! Variable bindings and the render context.
//!
//! A binding list pairs variable names with values. Lookup takes the first
//! binding of a name; the spec-level model of a binding list is the map
//! [`bindings_map`], in which the first binding of a name likewise wins.

use vstd::prelude::*;

verus! {

/// One variable binding: a name and its value.
pub struct Binding {
    pub name: Vec<u8>,
    pub value: Vec<u8>,
}

/// First-match lookup over a binding list.
pub open spec fn raw_lookup(bs: Seq<Binding>, name: Seq<u8>) -> Option<Seq<u8>>
    decreases bs.len(),
{
    if bs.len() == 0 {
        None
    } else if bs[0].name@ == name {
        Some(bs[0].value@)
    } else {
        raw_lookup(bs.skip(1), name)
    }
}

/// The map a binding list denotes; the first binding of a name wins.
pub open spec fn bindings_map(bs: Seq<Binding>) -> Map<Seq<u8>, Seq<u8>>
    decreases bs.len(),
{
    if bs.len() == 0 {
        Map::empty()
    } else {
        bindings_map(bs.skip(1)).insert(bs[0].name@, bs[0].value@)
    }
}

/// First-match lookup and the map agree on every name.
pub proof fn lemma_raw_lookup_map(bs: Seq<Binding>, name: Seq<u8>)
    ensures
        bindings_map(bs).dom().contains(name) == (raw_lookup(bs, name) is Some),
        raw_lookup(bs, name) matches Some(v) ==> bindings_map(bs)[name] == v,
    decreases bs.len(),
{
    if bs.len() == 0 {
    } else if bs[0].name@ == name {
    } else {
        lemma_raw_lookup_map(bs.skip(1), name);
    }
}

/// A name that occurs in the list is found by lookup.
pub proof fn lemma_raw_lookup_present(bs: Seq<Binding>, idx: int)
    requires
        0 <= idx < bs.len(),
    ensures
        raw_lookup(bs, bs[idx].name@) is Some,
    decreases idx,
{
    if bs[0].name@ != bs[idx].name@ {
        assert(bs.skip(1)[idx - 1] == bs[idx]);
        lemma_raw_lookup_present(bs.skip(1), idx - 1);
    }
}

/// The set of variable values a rendering may substitute, built by
/// [`crate::validate::validate`] and immutable while rendering. `warnings`
/// lists the supplied names the schema did not declare.
pub struct RenderContext {
    pub pairs: Vec<Binding>,
    pub warnings: Vec<Vec<u8>>,
}

impl View for RenderContext {
    type V = Map<Seq<u8>, Seq<u8>>;

    open spec fn view(&self) -> Map<Seq<u8>, Seq<u8>> {
        bindings_map(self.pairs@)
    }
}

/// A borrowed view of the first binding of `name`, or `None` if the list has
/// none.
pub fn lookup_binding<'a>(pairs: &'a Vec<Binding>, name: &Vec<u8>) -> (r: Option<&'a Vec<u8>>)
    ensures
        r matches Some(v) ==> raw_lookup(pairs@, name@) == Some(v@),
        r is None ==> raw_lookup(pairs@, name@) is None,
{
    let mut i: usize = 0;
    proof {
        assert(pairs@.skip(0) =~= pairs@);
    }
    while i < pairs.len()
        invariant
            i <= pairs@.len(),
            raw_lookup(pairs@, name@) == raw_lookup(pairs@.skip(i as int), name@),
        decreases pairs@.len() - i,
    {
        proof {
            assert(pairs@.skip(i as int)[0] == pairs@[i as int]);
            assert(pairs@.skip(i as int).skip(1) =~= pairs@.skip(i as int + 1));
        }
        if crate::text::bytes_eq(&pairs[i].name, name) {
            return Some(&pairs[i].value);
        }
        i += 1;
    }
    proof {
        assert(pairs@.skip(pairs@.len() as int).len() == 0);
    }
    None
}

} // verus!
