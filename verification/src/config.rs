//! The read-only configuration bag handed to the two entry points.
//!
//! A [`StoreConfig`] maps setting names to string or integer values.  The
//! protocol reads a handful of required keys out of it and never writes it;
//! the setters exist for the embedding host to marshal its configuration in.

use vstd::prelude::*;
use vstd::string::StringExecFns;
use crate::text::str_eq;

verus! {

/// Last-match lookup among string entries; a later setting shadows an
/// earlier one of the same name.
pub open spec fn lookup_str_in(entries: Seq<(String, String)>, key: Seq<char>) -> Option<
    Seq<char>,
>
    decreases entries.len(),
{
    if entries.len() == 0 {
        None
    } else if entries.last().0@ == key {
        Some(entries.last().1@)
    } else {
        lookup_str_in(entries.drop_last(), key)
    }
}

/// Last-match lookup among integer entries.
pub open spec fn lookup_int_in(entries: Seq<(String, i64)>, key: Seq<char>) -> Option<i64>
    decreases entries.len(),
{
    if entries.len() == 0 {
        None
    } else if entries.last().0@ == key {
        Some(entries.last().1)
    } else {
        lookup_int_in(entries.drop_last(), key)
    }
}

/// A read-only bag of named string and integer settings, supplied once per
/// call and never mutated by the protocol.
pub struct StoreConfig {
    strings: Vec<(String, String)>,
    ints: Vec<(String, i64)>,
}

impl StoreConfig {
    /// The string setting named `key`, if any.
    pub closed spec fn spec_string(&self, key: Seq<char>) -> Option<Seq<char>> {
        lookup_str_in(self.strings@, key)
    }

    /// The integer setting named `key`, if any.
    pub closed spec fn spec_int(&self, key: Seq<char>) -> Option<i64> {
        lookup_int_in(self.ints@, key)
    }

    /// An empty bag: no setting is present.
    pub fn new() -> (r: StoreConfig)
        ensures
            forall|k: Seq<char>| r.spec_string(k) is None,
            forall|k: Seq<char>| r.spec_int(k) is None,
    {
        StoreConfig { strings: Vec::new(), ints: Vec::new() }
    }

    /// Sets the string setting `key` to `value`, shadowing any earlier value.
    pub fn set_string(&mut self, key: &str, value: &str)
        ensures
            final(self).spec_string(key@) == Some(value@),
            forall|k: Seq<char>|
                k != key@ ==> final(self).spec_string(k) == old(self).spec_string(k),
            forall|k: Seq<char>| final(self).spec_int(k) == old(self).spec_int(k),
    {
        self.strings.push((String::from_str(key), String::from_str(value)));
        proof {
            assert(self.strings@.drop_last() =~= old(self).strings@);
        }
    }

    /// Sets the integer setting `key` to `value`, shadowing any earlier value.
    pub fn set_int(&mut self, key: &str, value: i64)
        ensures
            final(self).spec_int(key@) == Some(value),
            forall|k: Seq<char>| k != key@ ==> final(self).spec_int(k) == old(self).spec_int(k),
            forall|k: Seq<char>| final(self).spec_string(k) == old(self).spec_string(k),
    {
        self.ints.push((String::from_str(key), value));
        proof {
            assert(self.ints@.drop_last() =~= old(self).ints@);
        }
    }

    /// Reads the string setting named `key`.
    pub fn get_string<'a>(&'a self, key: &str) -> (r: Option<&'a String>)
        ensures
            match r {
                Some(v) => self.spec_string(key@) == Some(v@),
                None => self.spec_string(key@) is None,
            },
    {
        let mut i: usize = self.strings.len();
        proof {
            assert(self.strings@.take(i as int) =~= self.strings@);
        }
        while i > 0
            invariant
                i <= self.strings.len(),
                self.spec_string(key@) == lookup_str_in(self.strings@.take(i as int), key@),
            decreases i,
        {
            i = i - 1;
            proof {
                assert(self.strings@.take(i + 1).drop_last() =~= self.strings@.take(i as int));
                assert(self.strings@.take(i + 1).last() == self.strings@[i as int]);
            }
            if str_eq(self.strings[i].0.as_str(), key) {
                return Some(&self.strings[i].1);
            }
        }
        proof {
            assert(self.strings@.take(0) =~= Seq::<(String, String)>::empty());
        }
        None
    }

    /// Reads the integer setting named `key`.
    pub fn get_int(&self, key: &str) -> (r: Option<i64>)
        ensures
            r == self.spec_int(key@),
    {
        let mut i: usize = self.ints.len();
        proof {
            assert(self.ints@.take(i as int) =~= self.ints@);
        }
        while i > 0
            invariant
                i <= self.ints.len(),
                self.spec_int(key@) == lookup_int_in(self.ints@.take(i as int), key@),
            decreases i,
        {
            i = i - 1;
            proof {
                assert(self.ints@.take(i + 1).drop_last() =~= self.ints@.take(i as int));
                assert(self.ints@.take(i + 1).last() == self.ints@[i as int]);
            }
            if str_eq(self.ints[i].0.as_str(), key) {
                return Some(self.ints[i].1);
            }
        }
        proof {
            assert(self.ints@.take(0) =~= Seq::<(String, i64)>::empty());
        }
        None
    }
}

} // verus!
