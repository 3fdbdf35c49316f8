//! Filesystem paths modelled as ordered sequences of name components.

use vstd::prelude::*;
use vstd::seq_lib::*;
use vstd::string::StrSliceExecFns;

verus! {

/// A path, kept as the ordered list of its components. The view of a path
/// is the sequence of its components' character sequences.
pub struct FsPath {
    pub components: Vec<String>,
}

impl View for FsPath {
    type V = Seq<Seq<char>>;

    open spec fn view(&self) -> Seq<Seq<char>> {
        self.components.deep_view()
    }
}

/// The views of a sequence of paths.
pub open spec fn path_views(paths: Seq<FsPath>) -> Seq<Seq<Seq<char>>> {
    paths.map_values(|p: FsPath| p@)
}

/// True when `s` ends with `suffix`.
pub open spec fn ends_with(s: Seq<char>, suffix: Seq<char>) -> bool {
    suffix.len() <= s.len() && s.subrange(s.len() - suffix.len(), s.len() as int) == suffix
}

/// Compares two strings character by character.
pub fn str_eq(a: &str, b: &str) -> (r: bool)
    ensures
        r == (a@ == b@),
{
    let a_len = a.unicode_len();
    let b_len = b.unicode_len();
    if a_len != b_len {
        proof {
            assert(a@ != b@);
        }
        return false;
    }
    let mut i: usize = 0;
    while i < a_len
        invariant
            i <= a_len,
            a_len == a@.len(),
            a_len == b@.len(),
            forall|j: int| 0 <= j < i ==> a@[j] == b@[j],
        decreases a_len - i,
    {
        if a.get_char(i) != b.get_char(i) {
            return false;
        }
        i += 1;
    }
    proof {
        assert(a@ =~= b@);
    }
    true
}

/// True exactly when `s` ends with `suffix`, compared character by character.
pub fn str_ends_with(s: &str, suffix: &str) -> (r: bool)
    ensures
        r == ends_with(s@, suffix@),
{
    let s_len = s.unicode_len();
    let suf_len = suffix.unicode_len();
    if suf_len > s_len {
        return false;
    }
    let start = s_len - suf_len;
    let mut i: usize = 0;
    while i < suf_len
        invariant
            i <= suf_len,
            suf_len <= s_len,
            start == s_len - suf_len,
            s_len == s@.len(),
            suf_len == suffix@.len(),
            forall|j: int| 0 <= j < i ==> s@[start + j] == suffix@[j],
        decreases suf_len - i,
    {
        if s.get_char(start + i) != suffix.get_char(i) {
            proof {
                assert(s@.subrange(s@.len() - suffix@.len(), s@.len() as int)[i as int]
                    != suffix@[i as int]);
            }
            return false;
        }
        i += 1;
    }
    proof {
        assert(s@.subrange(s@.len() - suffix@.len(), s@.len() as int) =~= suffix@);
    }
    true
}

impl FsPath {
    /// The empty path.
    pub fn new() -> (r: FsPath)
        ensures
            r@ =~= Seq::<Seq<char>>::empty(),
    {
        FsPath { components: Vec::new() }
    }

    pub fn len(&self) -> (r: usize)
        ensures
            r == self@.len(),
    {
        self.components.len()
    }

    /// Appends one component.
    pub fn push(&mut self, component: String)
        ensures
            final(self)@ =~= old(self)@.push(component@),
    {
        self.components.push(component);
    }

    /// A copy of this path with the same components.
    pub fn duplicate(&self) -> (r: FsPath)
        ensures
            r@ =~= self@,
    {
        let mut components: Vec<String> = Vec::new();
        let mut i: usize = 0;
        while i < self.components.len()
            invariant
                i <= self.components.len(),
                components@.len() == i,
                forall|j: int| 0 <= j < i ==> components@[j]@ == self@[j],
            decreases self.components.len() - i,
        {
            components.push(self.components[i].clone());
            i += 1;
        }
        proof {
            assert(components.deep_view() =~= self@);
        }
        FsPath { components }
    }

    /// The last component, if any.
    pub fn file_name(&self) -> (r: Option<&String>)
        ensures
            match r {
                Some(name) => self@.len() > 0 && name@ == self@.last(),
                None => self@.len() == 0,
            },
    {
        if self.components.len() == 0 {
            None
        } else {
            Some(&self.components[self.components.len() - 1])
        }
    }

    /// The path without its last component; the empty path stays empty.
    pub fn parent(&self) -> (r: FsPath)
        ensures
            self@.len() > 0 ==> r@ =~= self@.drop_last(),
            self@.len() == 0 ==> r@ =~= self@,
    {
        let mut components: Vec<String> = Vec::new();
        if self.components.len() == 0 {
            return FsPath { components };
        }
        let end = self.components.len() - 1;
        let mut i: usize = 0;
        while i < end
            invariant
                i <= end,
                end < self.components.len(),
                end == self@.len() - 1,
                components@.len() == i,
                forall|j: int| 0 <= j < i ==> components@[j]@ == self@[j],
            decreases end - i,
        {
            components.push(self.components[i].clone());
            i += 1;
        }
        proof {
            assert(components.deep_view() =~= self@.drop_last());
        }
        FsPath { components }
    }

    /// This path followed by all of `other`'s components.
    pub fn join(&self, other: &FsPath) -> (r: FsPath)
        ensures
            r@ =~= self@ + other@,
    {
        let mut joined = self.duplicate();
        let mut i: usize = 0;
        while i < other.components.len()
            invariant
                i <= other.components.len(),
                joined@ =~= self@ + other@.take(i as int),
            decreases other.components.len() - i,
        {
            joined.push(other.components[i].clone());
            i += 1;
        }
        joined
    }

    /// Component-wise equality.
    pub fn path_eq(&self, other: &FsPath) -> (r: bool)
        ensures
            r == (self@ == other@),
    {
        if self.components.len() != other.components.len() {
            proof {
                assert(self@ != other@);
            }
            return false;
        }
        let mut i: usize = 0;
        while i < self.components.len()
            invariant
                i <= self.components.len(),
                self.components.len() == other.components.len(),
                self@.len() == other@.len(),
                forall|j: int| 0 <= j < i ==> self@[j] == other@[j],
            decreases self.components.len() - i,
        {
            if !str_eq(self.components[i].as_str(), other.components[i].as_str()) {
                proof {
                    assert(self@[i as int] != other@[i as int]);
                }
                return false;
            }
            i += 1;
        }
        proof {
            assert(self@ =~~= other@);
        }
        true
    }

    /// True when every component of `prefix` opens this path.
    pub fn starts_with(&self, prefix: &FsPath) -> (r: bool)
        ensures
            r == prefix@.is_prefix_of(self@),
    {
        if prefix.components.len() > self.components.len() {
            return false;
        }
        let mut i: usize = 0;
        while i < prefix.components.len()
            invariant
                i <= prefix.components.len(),
                prefix.components.len() <= self.components.len(),
                prefix@.len() <= self@.len(),
                forall|j: int| 0 <= j < i ==> self@[j] == prefix@[j],
            decreases prefix.components.len() - i,
        {
            if !str_eq(self.components[i].as_str(), prefix.components[i].as_str()) {
                proof {
                    assert(self@.take(prefix@.len() as int)[i as int] != prefix@[i as int]);
                }
                return false;
            }
            i += 1;
        }
        proof {
            assert(self@.take(prefix@.len() as int) =~~= prefix@);
        }
        true
    }

    /// The remainder of this path after `prefix`, when `prefix` opens it.
    pub fn strip_prefix(&self, prefix: &FsPath) -> (r: Option<FsPath>)
        ensures
            match r {
                Some(rest) => prefix@.is_prefix_of(self@) && rest@ =~= self@.skip(
                    prefix@.len() as int,
                ),
                None => !prefix@.is_prefix_of(self@),
            },
    {
        if !self.starts_with(prefix) {
            return None;
        }
        let mut components: Vec<String> = Vec::new();
        let start = prefix.components.len();
        let mut i: usize = start;
        while i < self.components.len()
            invariant
                start <= i <= self.components.len(),
                start == prefix@.len(),
                components@.len() == i - start,
                forall|j: int| 0 <= j < i - start ==> components@[j]@ == self@[start + j],
            decreases self.components.len() - i,
        {
            components.push(self.components[i].clone());
            i += 1;
        }
        proof {
            assert(components.deep_view() =~= self@.skip(prefix@.len() as int));
        }
        Some(FsPath { components })
    }
}

} // verus!
