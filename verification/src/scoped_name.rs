use vstd::prelude::*;

verus! {

/// A dotted name: a non-empty-segment path of identifiers.
#[derive(Debug)]
pub struct ScopedName {
    pub path: Vec<String>,
}

/// A fault while building a scoped name.
#[derive(Debug, Clone, Copy, PartialEq, Eq, Structural)]
pub enum Error {
    /// A path segment is empty.
    EmptyNamespace,
}

impl View for ScopedName {
    type V = Seq<Seq<char>>;

    open spec fn view(&self) -> Seq<Seq<char>> {
        self.path@.map_values(|s: String| s@)
    }
}

impl Clone for ScopedName {
    fn clone(&self) -> (r: Self)
        ensures
            r@ == self@,
    {
        let mut path: Vec<String> = Vec::new();
        let n = self.path.len();
        let mut i: usize = 0;
        while i < n
            invariant
                n == self.path@.len(),
                i <= n,
                path@.len() == i,
                forall|j: int| 0 <= j < i ==> (#[trigger] path@[j])@ == self.path@[j]@,
            decreases n - i,
        {
            path.push(self.path[i].clone());
            i = i + 1;
        }
        let r = ScopedName { path };
        proof {
            assert(r@ =~= self@);
        }
        r
    }
}

impl PartialEq for ScopedName {
    fn eq(&self, other: &Self) -> (r: bool) {
        if self.path.len() != other.path.len() {
            proof {
                assert(self@.len() == self.path@.len());
                assert(other@.len() == other.path@.len());
            }
            return false;
        }
        let n = self.path.len();
        let mut i: usize = 0;
        while i < n
            invariant
                n == self.path@.len(),
                n == other.path@.len(),
                i <= n,
                forall|j: int| 0 <= j < i ==> (#[trigger] self.path@[j])@ == other.path@[j]@,
            decreases n - i,
        {
            if self.path[i] != other.path[i] {
                proof {
                    assert(self@[i as int] != other@[i as int]);
                }
                return false;
            }
            i = i + 1;
        }
        proof {
            assert(self@ =~= other@);
        }
        true
    }
}

impl vstd::std_specs::cmp::PartialEqSpecImpl for ScopedName {
    open spec fn obeys_eq_spec() -> bool {
        true
    }

    open spec fn eq_spec(&self, other: &Self) -> bool {
        self@ == other@
    }
}

impl Eq for ScopedName {}

impl ScopedName {
    /// Builds a scoped name; every segment must be non-empty.
    pub fn new(path: Vec<String>) -> (r: Result<Self, Error>)
        ensures
            match r {
                Ok(s) => s.path@ == path@ && forall|j: int|
                    0 <= j < path@.len() ==> (#[trigger] path@[j])@.len() > 0,
                Err(Error::EmptyNamespace) => exists|j: int|
                    0 <= j < path@.len() && (#[trigger] path@[j])@.len() == 0,
            },
    {
        let n = path.len();
        let mut i: usize = 0;
        while i < n
            invariant
                n == path@.len(),
                i <= n,
                forall|j: int| 0 <= j < i ==> (#[trigger] path@[j])@.len() > 0,
            decreases n - i,
        {
            if path[i].as_str().unicode_len() == 0 {
                return Err(Error::EmptyNamespace);
            }
            i = i + 1;
        }
        Ok(Self { path })
    }

    pub fn len(&self) -> (r: usize)
        ensures
            r == self@.len(),
    {
        self.path.len()
    }

    pub fn is_empty(&self) -> (r: bool)
        ensures
            r == (self@.len() == 0),
    {
        self.path.len() == 0
    }

    /// The sub-name over the given index range.
    pub fn slice(&self, start: usize, end: usize) -> (r: Self)
        requires
            start <= end <= self@.len(),
        ensures
            r@ == self@.subrange(start as int, end as int),
    {
        let mut path: Vec<String> = Vec::new();
        let mut i: usize = start;
        while i < end
            invariant
                start <= i <= end <= self.path@.len(),
                path@.len() == i - start,
                forall|j: int|
                    0 <= j < path@.len() ==> (#[trigger] path@[j])@ == self.path@[start + j]@,
            decreases end - i,
        {
            path.push(self.path[i].clone());
            i = i + 1;
        }
        let r = ScopedName { path };
        proof {
            assert(r@ =~= self@.subrange(start as int, end as int));
        }
        r
    }

    /// Whether this name starts with the other name, segment for segment.
    pub fn startswith(&self, other: &ScopedName) -> (r: bool)
        ensures
            r == (self@.len() >= other@.len() && self@.subrange(0, other@.len() as int)
                =~= other@),
    {
        if self.path.len() < other.path.len() {
            return false;
        }
        let n = other.path.len();
        let mut i: usize = 0;
        while i < n
            invariant
                n == other.path@.len(),
                n <= self.path@.len(),
                i <= n,
                forall|j: int| 0 <= j < i ==> (#[trigger] self.path@[j])@ == other.path@[j]@,
            decreases n - i,
        {
            if self.path[i] != other.path[i] {
                proof {
                    assert(self@.subrange(0, other@.len() as int)[i as int] != other@[i as int]);
                }
                return false;
            }
            i = i + 1;
        }
        proof {
            assert(self@.subrange(0, other@.len() as int) =~= other@);
        }
        true
    }

    /// This name with one more segment at its end.
    pub fn child(&self, segment: String) -> (r: Self)
        ensures
            r@ == self@.push(segment@),
    {
        let mut r = self.clone();
        proof {
            assert(r@.len() == r.path@.len());
            assert(self@.len() == self.path@.len());
            assert(r.path@.len() == self.path@.len());
            assert forall|j: int| 0 <= j < self.path@.len() implies (#[trigger] r.path@[j])@
                == self.path@[j]@ by {
                assert(r@[j] == self@[j]);
            }
        }
        r.path.push(segment);
        proof {
            assert(r@ =~= self@.push(segment@));
        }
        r
    }

    /// This name followed by all of the other name's segments.
    pub fn concat(&self, other: &ScopedName) -> (r: Self)
        ensures
            r@ == self@ + other@,
    {
        let mut r = self.clone();
        proof {
            assert(r@.len() == r.path@.len());
            assert(self@.len() == self.path@.len());
            assert(r.path@.len() == self.path@.len());
            assert forall|j: int| 0 <= j < self.path@.len() implies (#[trigger] r.path@[j])@
                == self.path@[j]@ by {
                assert(r@[j] == self@[j]);
            }
        }
        let n = other.path.len();
        let mut i: usize = 0;
        while i < n
            invariant
                n == other.path@.len(),
                i <= n,
                r.path@.len() == self.path@.len() + i,
                forall|j: int| 0 <= j < self.path@.len() ==> (#[trigger] r.path@[j])@
                    == self.path@[j]@,
                forall|j: int|
                    0 <= j < i ==> (#[trigger] r.path@[self.path@.len() + j])@ == other.path@[j]@,
            decreases n - i,
        {
            r.path.push(other.path[i].clone());
            i = i + 1;
        }
        proof {
            assert(r@.len() == r.path@.len());
            assert forall|j: int| 0 <= j < r@.len() implies r@[j] == (self@ + other@)[j] by {
                assert(r@[j] == r.path@[j]@);
                if j < self.path@.len() {
                } else {
                    assert(r.path@[self.path@.len() + (j - self.path@.len())]@
                        == other.path@[j - self.path@.len()]@);
                    assert(r.path@[j]@ == other.path@[j - self.path@.len()]@);
                    assert(other@[j - self@.len()] == other.path@[j - self.path@.len()]@);
                }
            }
            assert(r@ =~= self@ + other@);
        }
        r
    }
}

} // verus!
