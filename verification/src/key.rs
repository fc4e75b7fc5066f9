//! Stable names of services and invocations.
use crate::text::{concat, decimal_text, join, quote};
#[allow(unused_imports)]
use crate::text::{decimal, joined, quoted, views};
use vstd::prelude::*;

verus! {

/// Stable service name.
#[derive(Debug, PartialEq, Eq)]
pub struct ServiceKey {
    pub namespace: String,
    pub name: String,
    pub version: u32,
}

/// Stable operation name.
#[derive(Debug, PartialEq, Eq)]
pub struct InvocationKey {
    pub namespace: String,
    pub name: String,
    pub version: u32,
}

/// What a key stands for.
pub struct KeyView {
    pub namespace: Seq<char>,
    pub name: Seq<char>,
    pub version: u32,
}

impl KeyView {
    /// How the key reads: `namespace/name@version`.
    pub open spec fn text(self) -> Seq<char> {
        self.namespace + "/"@ + self.name + "@"@ + decimal(self.version as nat)
    }

    /// How a service key reads with the names of its fields.
    pub open spec fn detailed_text(self) -> Seq<char> {
        "ServiceKey { namespace: "@ + quoted(self.namespace) + ", name: "@ + quoted(self.name)
            + ", version: "@ + decimal(self.version as nat) + " }"@
    }
}

impl View for ServiceKey {
    type V = KeyView;

    open spec fn view(&self) -> KeyView {
        KeyView { namespace: self.namespace@, name: self.name@, version: self.version }
    }
}

impl View for InvocationKey {
    type V = KeyView;

    open spec fn view(&self) -> KeyView {
        KeyView { namespace: self.namespace@, name: self.name@, version: self.version }
    }
}

fn key_string(namespace: &str, name: &str, version: u32) -> (text: String)
    ensures
        text@ == (KeyView { namespace: namespace@, name: name@, version }).text(),
{
    let mut text = concat(namespace, "/");
    text.append(name);
    text.append("@");
    text.append(decimal_text(version as u64).as_str());
    text
}

impl Clone for ServiceKey {
    fn clone(&self) -> (key: Self)
        ensures
            key == *self,
    {
        ServiceKey {
            namespace: self.namespace.clone(),
            name: self.name.clone(),
            version: self.version,
        }
    }
}

impl Clone for InvocationKey {
    fn clone(&self) -> (key: Self)
        ensures
            key == *self,
    {
        InvocationKey {
            namespace: self.namespace.clone(),
            name: self.name.clone(),
            version: self.version,
        }
    }
}

impl ServiceKey {
    pub fn new(namespace: &str, name: &str, version: u32) -> (key: Self)
        ensures
            key@ == (KeyView { namespace: namespace@, name: name@, version }),
    {
        ServiceKey { namespace: namespace.to_owned(), name: name.to_owned(), version }
    }

    /// Whether both keys name the same service.
    pub fn same(&self, other: &ServiceKey) -> (same: bool)
        ensures
            same == (self@ == other@),
    {
        self.version == other.version && self.namespace == other.namespace && self.name
            == other.name
    }

    /// How the key reads in messages.
    pub fn to_string(&self) -> (text: String)
        ensures
            text@ == self@.text(),
    {
        key_string(self.namespace.as_str(), self.name.as_str(), self.version)
    }

    /// How the key reads with the names of its fields.
    pub fn debug_text(&self) -> (text: String)
        ensures
            text@ == self@.detailed_text(),
    {
        let mut text = concat("ServiceKey { namespace: ", quote(self.namespace.as_str()).as_str());
        text.append(", name: ");
        text.append(quote(self.name.as_str()).as_str());
        text.append(", version: ");
        text.append(decimal_text(self.version as u64).as_str());
        text.append(" }");
        text
    }
}

impl InvocationKey {
    pub fn new(namespace: &str, name: &str, version: u32) -> (key: Self)
        ensures
            key@ == (KeyView { namespace: namespace@, name: name@, version }),
    {
        InvocationKey { namespace: namespace.to_owned(), name: name.to_owned(), version }
    }

    /// How the key reads in messages.
    pub fn to_string(&self) -> (text: String)
        ensures
            text@ == self@.text(),
    {
        key_string(self.namespace.as_str(), self.name.as_str(), self.version)
    }
}

/// What each key stands for.
pub open spec fn key_views(keys: Seq<ServiceKey>) -> Seq<KeyView> {
    Seq::new(keys.len(), |i: int| keys[i]@)
}

/// Each of `keys` once, where it comes first.
pub open spec fn distinct(keys: Seq<KeyView>) -> Seq<KeyView>
    decreases keys.len(),
{
    if keys.len() == 0 {
        Seq::empty()
    } else {
        let before = distinct(keys.drop_last());
        if keys.drop_last().contains(keys.last()) {
            before
        } else {
            before.push(keys.last())
        }
    }
}

/// How the set of `keys` reads.
pub open spec fn set_text(keys: Seq<KeyView>) -> Seq<char> {
    let set = distinct(keys);
    "{"@ + joined(Seq::new(set.len(), |i: int| set[i].detailed_text()), ", "@) + "}"@
}

/// A set is told of with each of its keys once, and no others.
pub proof fn law_sets_are_told_once(keys: Seq<KeyView>)
    ensures
        distinct(keys).no_duplicates(),
        distinct(keys).to_set() == keys.to_set(),
    decreases keys.len(),
{
    if keys.len() > 0 {
        let rest = keys.drop_last();
        let before = distinct(rest);
        law_sets_are_told_once(rest);
        assert(keys =~= rest.push(keys.last()));
        assert(before.contains(keys.last()) == before.to_set().contains(keys.last()));
        assert(rest.contains(keys.last()) == rest.to_set().contains(keys.last()));
        assert forall|key: KeyView|
            distinct(keys).to_set().contains(key) == keys.to_set().contains(key) by {
            vstd::seq_lib::lemma_seq_contains_after_push(rest, keys.last(), key);
            vstd::seq_lib::lemma_seq_contains_after_push(before, keys.last(), key);
            assert(before.contains(key) == before.to_set().contains(key));
            assert(rest.contains(key) == rest.to_set().contains(key));
        }
        assert(distinct(keys).to_set() =~= keys.to_set());
    }
}

/// How the set of `keys` reads.
pub fn set_string(keys: &Vec<ServiceKey>) -> (text: String)
    ensures
        text@ == set_text(key_views(keys@)),
{
    let ghost all = key_views(keys@);
    let mut texts: Vec<String> = Vec::new();
    let mut i: usize = 0;
    while i < keys.len()
        invariant
            i <= keys@.len(),
            all == key_views(keys@),
            ({
                let set = distinct(all.take(i as int));
                views(texts@) == Seq::new(set.len(), |k: int| set[k].detailed_text())
            }),
        decreases keys@.len() - i,
    {
        proof {
            assert(all.take(i + 1).drop_last() =~= all.take(i as int));
            assert(all.take(i + 1).last() == keys@[i as int]@);
        }
        let mut told: bool = false;
        let mut k: usize = 0;
        while k < i
            invariant
                k <= i,
                i < keys@.len(),
                all == key_views(keys@),
                told == all.take(k as int).contains(keys@[i as int]@),
            decreases i - k,
        {
            proof {
                assert(all.take(k + 1) =~= all.take(k as int).push(all[k as int]));
                vstd::seq_lib::lemma_seq_contains_after_push(
                    all.take(k as int),
                    all[k as int],
                    keys@[i as int]@,
                );
            }
            told = told || keys[k].same(&keys[i]);
            k += 1;
        }
        if !told {
            let ghost before = texts@;
            texts.push(keys[i].debug_text());
            proof {
                let set = distinct(all.take(i + 1));
                assert(views(texts@) =~= views(before).push(keys@[i as int]@.detailed_text()));
                assert(views(texts@) =~= Seq::new(set.len(), |k: int| set[k].detailed_text()));
            }
        }
        i += 1;
    }
    proof {
        assert(all.take(i as int) =~= all);
    }
    let mut text = concat("{", join(&texts, ", ").as_str());
    text.append("}");
    text
}

/// Whether `keys` names the service of `key`.
pub fn names(keys: &Vec<ServiceKey>, key: &ServiceKey) -> (found: bool)
    ensures
        found == key_views(keys@).contains(key@),
{
    let mut i: usize = 0;
    while i < keys.len()
        invariant
            i <= keys@.len(),
            forall|k: int| 0 <= k < i ==> key_views(keys@)[k] != key@,
        decreases keys@.len() - i,
    {
        if keys[i].same(key) {
            assert(key_views(keys@)[i as int] == key@);
            return true;
        }
        i += 1;
    }
    false
}

/// A copy of `keys`.
pub fn clone_keys(keys: &Vec<ServiceKey>) -> (copy: Vec<ServiceKey>)
    ensures
        copy@ == keys@,
{
    let mut copy: Vec<ServiceKey> = Vec::new();
    let mut i: usize = 0;
    while i < keys.len()
        invariant
            i <= keys@.len(),
            copy@ == keys@.take(i as int),
        decreases keys@.len() - i,
    {
        copy.push(keys[i].clone());
        i += 1;
        proof {
            assert(copy@ =~= keys@.take(i as int));
        }
    }
    proof {
        assert(copy@ =~= keys@);
    }
    copy
}

} // verus!
