//! Workspaces for interpolations which need to calculate in place.
use vstd::prelude::*;
use core::marker::PhantomData;

verus! {

/// A mutable buffer of elements an interpolation calculates in.
pub trait Workspace<T> {
    /// The elements in the buffer.
    spec fn buffer(&self) -> Seq<T>;

    /// The number of elements in the buffer.
    fn size(&self) -> (r: usize)
        ensures
            r == self.buffer().len(),
    ;

    /// The element at `i`.
    fn read(&self, i: usize) -> (r: T)
        where
            T: Copy,
        requires
            i < self.buffer().len(),
        ensures
            r == self.buffer()[i as int],
    ;

    /// Overwrite the element at `i`.
    fn write(&mut self, i: usize, value: T)
        requires
            i < old(self).buffer().len(),
        ensures
            final(self).buffer() == old(self).buffer().update(i as int, value),
    ;
}

impl<T, const N: usize> Workspace<T> for [T; N] {
    open spec fn buffer(&self) -> Seq<T> {
        self@
    }

    fn size(&self) -> (r: usize) {
        N
    }

    fn read(&self, i: usize) -> (r: T) where T: Copy {
        self[i]
    }

    fn write(&mut self, i: usize, value: T) {
        self[i] = value;
    }
}

impl<T> Workspace<T> for Vec<T> {
    open spec fn buffer(&self) -> Seq<T> {
        self@
    }

    fn size(&self) -> (r: usize) {
        self.len()
    }

    fn read(&self, i: usize) -> (r: T) where T: Copy {
        self[i]
    }

    fn write(&mut self, i: usize, value: T) {
        self[i] = value;
    }
}

/// Trait for constant or dynamic workspace handling.
pub trait Space<T> {
    /// The workspace given, an array or a vector.
    type Output: Workspace<T>;

    /// The length of the workspaces handed out.
    spec fn len_spec(&self) -> nat;

    /// Returns the length of the workspace given.
    fn len(&self) -> (r: usize)
        ensures
            r == self.len_spec(),
    ;

    /// A new workspace.
    fn workspace(&self) -> (r: Self::Output)
        ensures
            r.buffer().len() == self.len_spec(),
    ;
}

/// Workspace whose size is known at compile time.
#[derive(Debug)]
pub struct ConstSpace<T, const N: usize> {
    _phantom: PhantomData<T>,
}

impl<T, const N: usize> ConstSpace<T, N> {
    /// Create a constant workspace at compile time.
    pub fn new() -> Self {
        ConstSpace { _phantom: PhantomData }
    }
}

impl<T: Default + Copy, const N: usize> Space<T> for ConstSpace<T, N> {
    type Output = [T; N];

    open spec fn len_spec(&self) -> nat {
        N as nat
    }

    fn len(&self) -> (r: usize) {
        N
    }

    /// A workspace filled with one default element.
    fn workspace(&self) -> (r: [T; N])
        ensures
            forall|i: int| 0 <= i < N ==> call_ensures(T::default, (), #[trigger] r@[i]),
            forall|i: int, j: int| 0 <= i < N && 0 <= j < N ==> #[trigger] r@[i] == #[trigger] r@[j],
    {
        let value = T::default();
        [value; N]
    }
}

/// Workspace whose size is decided at run time.
#[derive(Debug)]
pub struct DynSpace<T> {
    len: usize,
    _phantom: PhantomData<T>,
}

impl<T> DynSpace<T> {
    /// Create a workspace with the given length at run time.
    pub fn new(len: usize) -> (r: Self)
        ensures
            r.len_spec() == len,
    {
        DynSpace { len, _phantom: PhantomData }
    }

    /// The length of the workspaces handed out.
    pub closed spec fn len_spec(&self) -> nat {
        self.len as nat
    }
}

impl<T: Default + Copy> Space<T> for DynSpace<T> {
    type Output = Vec<T>;

    open spec fn len_spec(&self) -> nat {
        DynSpace::len_spec(self)
    }

    fn len(&self) -> (r: usize) {
        self.len
    }

    /// A workspace filled with one default element.
    fn workspace(&self) -> (r: Vec<T>)
        ensures
            forall|i: int| 0 <= i < r@.len() ==> call_ensures(T::default, (), #[trigger] r@[i]),
            forall|i: int, j: int|
                0 <= i < r@.len() && 0 <= j < r@.len() ==> #[trigger] r@[i] == #[trigger] r@[j],
    {
        let value = T::default();
        let mut v: Vec<T> = Vec::new();
        let mut i: usize = 0;
        while i < self.len
            invariant
                i <= self.len,
                v@.len() == i,
                call_ensures(T::default, (), value),
                forall|j: int| 0 <= j < i ==> #[trigger] v@[j] == value,
            decreases self.len - i,
        {
            v.push(value);
            i = i + 1;
        }
        v
    }
}

} // verus!
