//! Paths as sequences of components.
//!
//! A path is held as its list of components; the view of a path is the
//! sequence of its components' character sequences.  Joining is sequence
//! concatenation, and stripping a prefix is the inverse of joining.

use vstd::prelude::*;

verus! {

/// The character sequences of a sequence of strings.
pub open spec fn views_of(s: Seq<String>) -> Seq<Seq<char>> {
    Seq::new(s.len(), |i: int| s[i]@)
}

/// A filesystem path, held as its components in order.  An empty component
/// list stands for the relative path that names its own base directory.
#[derive(Debug, PartialEq, Eq)]
pub struct FsPath {
    pub components: Vec<String>,
}

impl View for FsPath {
    type V = Seq<Seq<char>>;

    open spec fn view(&self) -> Seq<Seq<char>> {
        views_of(self.components@)
    }
}

/// `pre` is a (not necessarily strict) leading run of `p`'s components.
pub open spec fn is_prefix_of(pre: Seq<Seq<char>>, p: Seq<Seq<char>>) -> bool {
    pre.len() <= p.len() && forall|i: int| 0 <= i < pre.len() ==> pre[i] == p[i]
}

proof fn lemma_views_of_push(s: Seq<String>, x: String)
    ensures
        views_of(s.push(x)) == views_of(s).push(x@),
{
    assert(views_of(s.push(x)) =~= views_of(s).push(x@));
}

proof fn lemma_views_of_concat(a: Seq<String>, b: Seq<String>)
    ensures
        views_of(a + b) == views_of(a) + views_of(b),
{
    assert(views_of(a + b) =~= views_of(a) + views_of(b));
}

proof fn lemma_views_of_subrange(s: Seq<String>, x: int, y: int)
    requires
        0 <= x <= y <= s.len(),
    ensures
        views_of(s.subrange(x, y)) == views_of(s).subrange(x, y),
{
    assert(views_of(s.subrange(x, y)) =~= views_of(s).subrange(x, y));
}

/// The path has no components.
pub fn empty(path: &FsPath) -> (r: bool)
    ensures
        r == (path@.len() == 0),
{
    path.components.len() == 0
}

impl Clone for FsPath {
    fn clone(&self) -> (r: Self)
        ensures
            r@ == self@,
            r.components@ == self.components@,
    {
        let components = self.components.clone();
        proof {
            assert forall|i: int| 0 <= i < self.components@.len() implies components@[i]
                == self.components@[i] by {
                assert(cloned::<String>(self.components[i], components[i]));
            }
            assert(components@ =~= self.components@);
        }
        FsPath { components }
    }
}

impl FsPath {
    /// The path with no components.
    pub fn new() -> (r: FsPath)
        ensures
            r@ == Seq::<Seq<char>>::empty(),
    {
        let r = FsPath { components: Vec::new() };
        proof {
            assert(r@ =~= Seq::<Seq<char>>::empty());
        }
        r
    }

    /// Append one component.
    pub fn push(&mut self, c: String)
        ensures
            final(self)@ == old(self)@.push(c@),
    {
        let ghost prev = self.components@;
        let ghost cv = c@;
        self.components.push(c);
        proof {
            lemma_views_of_push(prev, self.components@.last());
            assert(self@ == views_of(prev).push(cv));
        }
    }

    /// The path extended by all of `other`'s components.
    pub fn join(&self, other: &FsPath) -> (r: FsPath)
        ensures
            r@ == self@ + other@,
    {
        let mut r = self.clone();
        proof {
            assert(self.components@ + other.components@.take(0) =~= self.components@);
        }
        let mut i: usize = 0;
        while i < other.components.len()
            invariant
                i <= other.components@.len(),
                r.components@ == self.components@ + other.components@.take(i as int),
            decreases other.components@.len() - i,
        {
            r.components.push(other.components[i].clone());
            proof {
                assert(r.components@ =~= self.components@ + other.components@.take(i + 1));
            }
            i += 1;
        }
        proof {
            assert(r.components@ =~= self.components@ + other.components@);
            lemma_views_of_concat(self.components@, other.components@);
        }
        r
    }

    /// The remainder of the path after a leading run equal to `prefix`, or
    /// `None` when `prefix` is not a leading run of this path.
    pub fn strip_prefix(&self, prefix: &FsPath) -> (r: Option<FsPath>)
        ensures
            match r {
                Some(rest) => is_prefix_of(prefix@, self@)
                    && rest@ == self@.skip(prefix@.len() as int),
                None => !is_prefix_of(prefix@, self@),
            },
    {
        if prefix.components.len() > self.components.len() {
            return None;
        }
        let mut i: usize = 0;
        while i < prefix.components.len()
            invariant
                i <= prefix.components@.len() <= self.components@.len(),
                forall|j: int| 0 <= j < i ==> prefix@[j] == self@[j],
            decreases prefix.components@.len() - i,
        {
            if !(self.components[i] == prefix.components[i]) {
                proof {
                    assert(prefix@[i as int] == prefix.components@[i as int]@);
                    assert(self@[i as int] == self.components@[i as int]@);
                }
                return None;
            }
            i += 1;
        }
        let mut rest = FsPath { components: Vec::new() };
        let mut k: usize = prefix.components.len();
        while k < self.components.len()
            invariant
                prefix.components@.len() <= k <= self.components@.len(),
                rest.components@ == self.components@.subrange(
                    prefix.components@.len() as int,
                    k as int,
                ),
            decreases self.components@.len() - k,
        {
            rest.components.push(self.components[k].clone());
            proof {
                assert(rest.components@ =~= self.components@.subrange(
                    prefix.components@.len() as int,
                    k + 1,
                ));
            }
            k += 1;
        }
        proof {
            lemma_views_of_subrange(
                self.components@,
                prefix.components@.len() as int,
                self.components@.len() as int,
            );
            assert(views_of(self.components@).subrange(
                prefix.components@.len() as int,
                self.components@.len() as int,
            ) =~= self@.skip(prefix@.len() as int));
        }
        Some(rest)
    }

    /// The final component, or `None` for the empty path.
    pub fn file_name(&self) -> (r: Option<String>)
        ensures
            match r {
                Some(s) => self@.len() > 0 && s@ == self@.last(),
                None => self@.len() == 0,
            },
    {
        if self.components.len() == 0 {
            None
        } else {
            Some(self.components[self.components.len() - 1].clone())
        }
    }
}

} // verus!
