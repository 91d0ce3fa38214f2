//! A small untyped tree of values: the partial record of the fields that
//! changed since the previous snapshot.
use vstd::prelude::*;
use crate::text::text_eq;

verus! {

/// A value of the previous-values record.
#[derive(Debug)]
pub enum Tree {
    Null,
    Bool(bool),
    Number(i64),
    Text(String),
    List(Vec<Tree>),
    /// Named children, looked up by the first entry with a matching name.
    Object(Vec<(String, Tree)>),
}

/// The value under `key` among `entries`: the first entry with that name.
pub open spec fn entry_lookup(entries: Seq<(String, Tree)>, key: Seq<char>) -> Option<Tree>
    decreases entries.len(),
{
    if entries.len() == 0 {
        None
    } else if entries[0].0@ == key {
        Some(entries[0].1)
    } else {
        entry_lookup(entries.drop_first(), key)
    }
}

/// The child of `t` under `key`; only an object has children.
pub open spec fn tree_get(t: Tree, key: Seq<char>) -> Option<Tree> {
    match t {
        Tree::Object(entries) => entry_lookup(entries@, key),
        _ => None,
    }
}

/// The child under `key` of a value that may be absent.
pub open spec fn child(t: Option<Tree>, key: Seq<char>) -> Option<Tree> {
    match t {
        Some(x) => tree_get(x, key),
        None => None,
    }
}

/// The number held, if the value is present and a number.
pub open spec fn number_of(t: Option<Tree>) -> Option<i64> {
    match t {
        Some(Tree::Number(n)) => Some(n),
        _ => None,
    }
}

/// Whether the value is present and is the text `s`.
pub open spec fn is_text(t: Option<Tree>, s: Seq<char>) -> bool {
    match t {
        Some(Tree::Text(x)) => x@ == s,
        _ => false,
    }
}

/// A tree in which no field is recorded.
pub open spec fn is_empty_tree(t: Tree) -> bool {
    forall|key: Seq<char>| #[trigger] tree_get(t, key) is None
}

pub open spec fn opt_deref(r: Option<&Tree>) -> Option<Tree> {
    match r {
        Some(t) => Some(*t),
        None => None,
    }
}

impl Tree {
    /// The child under `key`, if this is an object that has one.
    pub fn get(&self, key: &str) -> (r: Option<&Tree>)
        ensures
            opt_deref(r) == tree_get(*self, key@),
    {
        match self {
            Tree::Object(entries) => {
                let mut i: usize = 0;
                assert(entries@.subrange(0, entries@.len() as int) =~= entries@);
                while i < entries.len()
                    invariant
                        i <= entries@.len(),
                        tree_get(*self, key@) == entry_lookup(entries@.subrange(i as int, entries@.len() as int), key@),
                    decreases entries@.len() - i,
                {
                    proof {
                        let rest = entries@.subrange(i as int, entries@.len() as int);
                        assert(rest.drop_first() =~= entries@.subrange(i + 1, entries@.len() as int));
                        assert(rest[0] == entries@[i as int]);
                    }
                    if text_eq(entries[i].0.as_str(), key) {
                        proof {
                            let rest = entries@.subrange(i as int, entries@.len() as int);
                            assert(rest[0].0@ == key@);
                            assert(entry_lookup(rest, key@) == Some(rest[0].1));
                            assert(rest[0] == entries@[i as int]);
                        }
                        let found: &Tree = &entries[i].1;
                        assert(*found == entries@[i as int].1);
                        return Some(found);
                    }
                    i = i + 1;
                }
                proof {
                    assert(entries@.subrange(i as int, entries@.len() as int).len() == 0);
                }
                None
            },
            _ => None,
        }
    }

    /// The number held, if this is a number.
    pub fn as_number(&self) -> (r: Option<i64>)
        ensures
            r == number_of(Some(*self)),
    {
        match self {
            Tree::Number(n) => Some(*n),
            _ => None,
        }
    }

    /// Whether this is the text `s`.
    pub fn is_text(&self, s: &str) -> (r: bool)
        ensures
            r == is_text(Some(*self), s@),
    {
        match self {
            Tree::Text(x) => text_eq(x.as_str(), s),
            _ => false,
        }
    }
}

/// The child under `key` of a value that may be absent.
pub fn child_of<'a>(t: Option<&'a Tree>, key: &str) -> (r: Option<&'a Tree>)
    ensures
        opt_deref(r) == child(opt_deref(t), key@),
{
    match t {
        Some(x) => x.get(key),
        None => None,
    }
}

} // verus!
