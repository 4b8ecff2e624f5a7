//! Name-keyed lookup into the collections of a loaded document. A lookup
//! tells "not found" apart from an entity that is found and empty.

use vstd::prelude::*;
use crate::index::{unique_keys, Named};
use crate::vulkan_object::{
    Bitmask, Command, Constant, Enum, Extension, Flags, Format, Handle, Struct, Version,
    VulkanObject,
};

verus! {

/// The position of the first entity of `s` named `x`, or -1 where none is.
pub open spec fn position_of<T: Named>(s: Seq<T>, x: Seq<char>) -> int
    decreases s.len(),
{
    if s.len() == 0 {
        -1
    } else if position_of(s.drop_last(), x) >= 0 {
        position_of(s.drop_last(), x)
    } else if s.last().key() == x {
        s.len() - 1
    } else {
        -1
    }
}

/// What a lookup of `x` in `s` finds.
pub open spec fn lookup<T: Named>(s: Seq<T>, x: Seq<char>) -> Option<T> {
    let i = position_of(s, x);
    if i >= 0 {
        Some(s[i])
    } else {
        None
    }
}

pub proof fn lemma_position_bounds<T: Named>(s: Seq<T>, x: Seq<char>)
    ensures
        -1 <= position_of(s, x) < s.len(),
        position_of(s, x) >= 0 ==> s[position_of(s, x)].key() == x,
        position_of(s, x) == -1 <==> forall|i: int| 0 <= i < s.len() ==> #[trigger] s[i].key() != x,
    decreases s.len(),
{
    if s.len() > 0 {
        lemma_position_bounds(s.drop_last(), x);
        if position_of(s.drop_last(), x) == -1 {
            assert forall|i: int| 0 <= i < s.len() - 1 implies #[trigger] s[i].key() != x by {
                assert(s.drop_last()[i] == s[i]);
            }
        } else {
            let p = position_of(s.drop_last(), x);
            assert(s.drop_last()[p] == s[p]);
        }
    }
}

proof fn lemma_position_prefix<T: Named>(s: Seq<T>, n: int, x: Seq<char>)
    requires
        0 <= n <= s.len(),
        position_of(s.take(n), x) >= 0,
    ensures
        position_of(s, x) == position_of(s.take(n), x),
    decreases s.len(),
{
    if n == s.len() {
        assert(s.take(n) == s);
    } else {
        assert(s.drop_last().take(n) == s.take(n));
        lemma_position_prefix(s.drop_last(), n, x);
    }
}

/// Where names are unique, the entity named `x` is the one found.
pub proof fn lemma_position_unique<T: Named>(s: Seq<T>, i: int)
    requires
        unique_keys(s),
        0 <= i < s.len(),
    ensures
        position_of(s, s[i].key()) == i,
    decreases s.len(),
{
    let x = s[i].key();
    lemma_position_bounds(s, x);
    let p = position_of(s, x);
    if p != i {
        assert(p >= 0);
        if p < i {
            assert(s[p].key() != s[i].key());
        } else {
            assert(s[i].key() != s[p].key());
        }
    }
}

/// The position of the first entity of `items` named `x`.
pub fn position<T: Named>(items: &Vec<T>, x: &String) -> (r: Option<usize>)
    ensures
        match r {
            Some(i) => i < items@.len() && position_of(items@, x@) == i,
            None => position_of(items@, x@) == -1,
        },
{
    let mut i: usize = 0;
    while i < items.len()
        invariant
            i <= items.len(),
            position_of(items@.take(i as int), x@) == -1,
        decreases items.len() - i,
    {
        assert(items@.take(i + 1).drop_last() == items@.take(i as int));
        if *items[i].name_ref() == *x {
            proof {
                lemma_position_prefix(items@, i + 1, x@);
            }
            return Some(i);
        }
        i = i + 1;
    }
    assert(items@.take(items.len() as int) == items@);
    None
}

impl VulkanObject {
    /// The extension named `name`, the first one where several are.
    pub fn get_extension(&self, name: &String) -> (r: Option<&Extension>)
        ensures
            match r {
                Some(x) => lookup(self.extensions@, name@) == Some(*x),
                None => lookup(self.extensions@, name@) is None,
            },
    {
        match position(&self.extensions, name) {
            Some(i) => Some(&self.extensions[i]),
            None => None,
        }
    }

    /// The version named `name`, the first one where several are.
    pub fn get_version(&self, name: &String) -> (r: Option<&Version>)
        ensures
            match r {
                Some(x) => lookup(self.versions@, name@) == Some(*x),
                None => lookup(self.versions@, name@) is None,
            },
    {
        match position(&self.versions, name) {
            Some(i) => Some(&self.versions[i]),
            None => None,
        }
    }

    /// The handle named `name`, the first one where several are.
    pub fn get_handle(&self, name: &String) -> (r: Option<&Handle>)
        ensures
            match r {
                Some(x) => lookup(self.handles@, name@) == Some(*x),
                None => lookup(self.handles@, name@) is None,
            },
    {
        match position(&self.handles, name) {
            Some(i) => Some(&self.handles[i]),
            None => None,
        }
    }

    /// The command named `name`, the first one where several are.
    pub fn get_command(&self, name: &String) -> (r: Option<&Command>)
        ensures
            match r {
                Some(x) => lookup(self.commands@, name@) == Some(*x),
                None => lookup(self.commands@, name@) is None,
            },
    {
        match position(&self.commands, name) {
            Some(i) => Some(&self.commands[i]),
            None => None,
        }
    }

    /// The struct named `name`, the first one where several are.
    pub fn get_struct(&self, name: &String) -> (r: Option<&Struct>)
        ensures
            match r {
                Some(x) => lookup(self.structs@, name@) == Some(*x),
                None => lookup(self.structs@, name@) is None,
            },
    {
        match position(&self.structs, name) {
            Some(i) => Some(&self.structs[i]),
            None => None,
        }
    }

    /// The enum named `name`, the first one where several are.
    pub fn get_enum(&self, name: &String) -> (r: Option<&Enum>)
        ensures
            match r {
                Some(x) => lookup(self.enums@, name@) == Some(*x),
                None => lookup(self.enums@, name@) is None,
            },
    {
        match position(&self.enums, name) {
            Some(i) => Some(&self.enums[i]),
            None => None,
        }
    }

    /// The bitmask named `name`, the first one where several are.
    pub fn get_bitmask(&self, name: &String) -> (r: Option<&Bitmask>)
        ensures
            match r {
                Some(x) => lookup(self.bitmasks@, name@) == Some(*x),
                None => lookup(self.bitmasks@, name@) is None,
            },
    {
        match position(&self.bitmasks, name) {
            Some(i) => Some(&self.bitmasks[i]),
            None => None,
        }
    }

    /// The flags type named `name`, the first one where several are.
    pub fn get_flags(&self, name: &String) -> (r: Option<&Flags>)
        ensures
            match r {
                Some(x) => lookup(self.flags@, name@) == Some(*x),
                None => lookup(self.flags@, name@) is None,
            },
    {
        match position(&self.flags, name) {
            Some(i) => Some(&self.flags[i]),
            None => None,
        }
    }

    /// The constant named `name`, the first one where several are.
    pub fn get_constant(&self, name: &String) -> (r: Option<&Constant>)
        ensures
            match r {
                Some(x) => lookup(self.constants@, name@) == Some(*x),
                None => lookup(self.constants@, name@) is None,
            },
    {
        match position(&self.constants, name) {
            Some(i) => Some(&self.constants[i]),
            None => None,
        }
    }

    /// The format named `name`, the first one where several are.
    pub fn get_format(&self, name: &String) -> (r: Option<&Format>)
        ensures
            match r {
                Some(x) => lookup(self.formats@, name@) == Some(*x),
                None => lookup(self.formats@, name@) is None,
            },
    {
        match position(&self.formats, name) {
            Some(i) => Some(&self.formats[i]),
            None => None,
        }
    }
}

} // verus!
