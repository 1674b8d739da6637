//! Extended user attributes: an account name together with a key/value
//! attribute mapping, and the derived view of its "profiles" attribute.

use vstd::prelude::*;

verus! {

use vstd::utf8::{valid_utf8, decode_utf8};
use crate::text::{try_decode, split_commas, trim_spec, split_and_trim};

/// An extended-attribute record: an account name and its attribute mapping.
/// Entries are kept in arrival order; a later entry for a key overrides an
/// earlier one, as `attr_map` states.
#[derive(Debug, PartialEq)]
pub struct UserAttr {
    pub name: String,
    pub attr: Vec<(String, String)>,
}

/// The mapping held by an entry list: each entry binds its key, a later
/// entry overriding an earlier one with the same key.
pub open spec fn entries_map(l: Seq<(String, String)>) -> Map<Seq<char>, Seq<char>>
    decreases l.len(),
{
    if l.len() == 0 {
        Map::empty()
    } else {
        entries_map(l.drop_last()).insert(l.last().0@, l.last().1@)
    }
}

/// The attribute mapping carried by a raw key/value array: every pair whose
/// key and value are both valid UTF-8 is bound, later pairs overriding
/// earlier ones; a pair with undecodable text is dropped without complaint.
pub open spec fn attrs_of(pairs: Seq<(Seq<u8>, Seq<u8>)>) -> Map<Seq<char>, Seq<char>>
    decreases pairs.len(),
{
    if pairs.len() == 0 {
        Map::empty()
    } else if valid_utf8(pairs.last().0) && valid_utf8(pairs.last().1) {
        attrs_of(pairs.drop_last()).insert(
            decode_utf8(pairs.last().0),
            decode_utf8(pairs.last().1),
        )
    } else {
        attrs_of(pairs.drop_last())
    }
}

/// Entries at or after position `i` that never bind `k` leave the mapping
/// at `k` exactly as the first `i` entries left it.
proof fn lemma_entries_map_agree(l: Seq<(String, String)>, i: int, k: Seq<char>)
    requires
        0 <= i <= l.len(),
        forall|j: int| i <= j < l.len() ==> l[j].0@ != k,
    ensures
        entries_map(l).contains_key(k) == entries_map(l.take(i)).contains_key(k),
        entries_map(l).contains_key(k) ==> entries_map(l)[k] == entries_map(l.take(i))[k],
    decreases l.len() - i,
{
    if i == l.len() {
        assert(l.take(i) =~= l);
    } else {
        lemma_entries_map_agree(l, i + 1, k);
        assert(l.take(i + 1).drop_last() =~= l.take(i));
        assert(l.take(i + 1).last() == l[i]);
    }
}

/// Updating the one entry that holds a key, when no later entry holds it,
/// binds the key exactly as inserting it anew would.
proof fn lemma_entries_map_update(l: Seq<(String, String)>, t: int, e: (String, String))
    requires
        0 <= t < l.len(),
        l[t].0@ == e.0@,
        forall|j: int| t < j < l.len() ==> l[j].0@ != e.0@,
    ensures
        entries_map(l.update(t, e)) == entries_map(l).insert(e.0@, e.1@),
    decreases l.len(),
{
    let l2 = l.update(t, e);
    if t == l.len() - 1 {
        assert(l2.drop_last() =~= l.drop_last());
        assert(l2.last() == e);
        assert(entries_map(l.drop_last()).insert(l.last().0@, l.last().1@).insert(e.0@, e.1@)
            =~= entries_map(l.drop_last()).insert(e.0@, e.1@));
    } else {
        assert(l2.drop_last() =~= l.drop_last().update(t, e));
        assert(l2.last() == l.last());
        lemma_entries_map_update(l.drop_last(), t, e);
        assert(l.last().0@ != e.0@);
        assert(entries_map(l.drop_last()).insert(e.0@, e.1@).insert(l.last().0@, l.last().1@)
            =~= entries_map(l.drop_last()).insert(l.last().0@, l.last().1@).insert(e.0@, e.1@));
    }
}

/// The position of the entry holding a key, if one is there.
fn find_key(attr: &Vec<(String, String)>, key: &String) -> (r: Option<usize>)
    ensures
        match r {
            Some(t) => t < attr@.len() && attr@[t as int].0@ == key@,
            None => forall|j: int| 0 <= j < attr@.len() ==> attr@[j].0@ != key@,
        },
{
    let mut i: usize = 0;
    while i < attr.len()
        invariant
            i <= attr@.len(),
            forall|j: int| 0 <= j < i ==> attr@[j].0@ != key@,
        decreases attr@.len() - i,
    {
        if attr[i].0 == *key {
            return Some(i);
        }
        i += 1;
    }
    None
}

impl UserAttr {
    /// The attribute mapping this record holds.
    pub open spec fn attr_map(self) -> Map<Seq<char>, Seq<char>> {
        entries_map(self.attr@)
    }

    /// Attribute keys are unique: a well-formed record binds each key in
    /// one entry only.
    pub open spec fn wf(self) -> bool {
        forall|i: int, j: int| 0 <= i < j < self.attr@.len()
            ==> #[trigger] self.attr@[i].0@ != #[trigger] self.attr@[j].0@
    }

    /// Look an attribute up by key: the latest entry for the key wins, and
    /// an unbound key yields nothing.
    pub fn get_attr<'a>(&'a self, key: &String) -> (r: Option<&'a String>)
        ensures
            match r {
                Some(v) => self.attr_map().contains_key(key@) && v@ == self.attr_map()[key@],
                None => !self.attr_map().contains_key(key@),
            },
    {
        let mut j: usize = self.attr.len();
        while j > 0
            invariant
                j <= self.attr@.len(),
                forall|t: int| j <= t < self.attr@.len() ==> self.attr@[t].0@ != key@,
            decreases j,
        {
            j -= 1;
            if self.attr[j].0 == *key {
                proof {
                    lemma_entries_map_agree(self.attr@, j + 1, key@);
                    assert(self.attr@.take(j + 1).drop_last() =~= self.attr@.take(j as int));
                    assert(self.attr@.take(j + 1).last() == self.attr@[j as int]);
                }
                return Some(&self.attr[j].1);
            }
        }
        proof {
            lemma_entries_map_agree(self.attr@, 0, key@);
            assert(self.attr@.take(0) =~= Seq::<(String, String)>::empty());
        }
        None
    }

    /// Build a record from the raw key/value pairs of a directory entry:
    /// both sides of a pair are decoded, a pair whose key or value is not
    /// valid text is silently skipped, and a later pair for a key already
    /// seen replaces that key's entry, keeping the keys unique.
    pub fn from_pairs(name: String, pairs: &Vec<(Vec<u8>, Vec<u8>)>) -> (r: UserAttr)
        ensures
            r.name@ == name@,
            r.attr_map() == attrs_of(pairs.deep_view()),
            r.wf(),
    {
        let mut out = UserAttr { name, attr: Vec::new() };
        proof {
            assert(pairs.deep_view().take(0) =~= Seq::<(Seq<u8>, Seq<u8>)>::empty());
            assert(out.attr@ =~= Seq::<(String, String)>::empty());
        }
        let mut i: usize = 0;
        while i < pairs.len()
            invariant
                i <= pairs@.len(),
                pairs.deep_view().len() == pairs@.len(),
                out.attr_map() == attrs_of(pairs.deep_view().take(i as int)),
                out.name@ == name@,
                out.wf(),
            decreases pairs@.len() - i,
        {
            let k = try_decode(pairs[i].0.as_slice());
            let v = try_decode(pairs[i].1.as_slice());
            proof {
                assert(pairs.deep_view().take(i + 1).drop_last() =~= pairs.deep_view().take(
                    i as int,
                ));
                assert(pairs.deep_view().take(i + 1).last() == pairs.deep_view()[i as int]);
                assert(pairs.deep_view()[i as int].0 == pairs@[i as int].0@);
                assert(pairs.deep_view()[i as int].1 == pairs@[i as int].1@);
            }
            if let (Some(ks), Some(vs)) = (k, v) {
                let ghost before = out.attr@;
                let ghost entry = (ks, vs);
                match find_key(&out.attr, &ks) {
                    Some(t) => {
                        out.attr[t] = (ks, vs);
                        proof {
                            assert(out.attr@ == before.update(t as int, entry));
                            lemma_entries_map_update(before, t as int, entry);
                        }
                    },
                    None => {
                        out.attr.push((ks, vs));
                        proof {
                            assert(out.attr@.drop_last() =~= before);
                        }
                    },
                }
            }
            i += 1;
        }
        proof {
            assert(pairs.deep_view().take(pairs@.len() as int) =~= pairs.deep_view());
        }
        out
    }

    /// The ordered profile list of this record: the "profiles" attribute
    /// split at its commas, each piece trimmed, order kept, nothing
    /// deduplicated; an absent attribute yields the empty list.
    pub fn profiles(&self) -> (r: Vec<String>)
        ensures
            self.attr_map().contains_key("profiles"@) ==> r.deep_view() == split_commas(
                self.attr_map()["profiles"@],
            ).map_values(|p: Seq<char>| trim_spec(p)),
            !self.attr_map().contains_key("profiles"@) ==> r@ == Seq::<String>::empty(),
    {
        let key: String = "profiles".to_owned();
        match self.get_attr(&key) {
            Some(v) => split_and_trim(v.as_str()),
            None => Vec::new(),
        }
    }
}

} // verus!
