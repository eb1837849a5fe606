use vstd::prelude::*;
use crate::text::string_is;

verus! {

/// The intrinsics, known by name: each takes `i32` arguments and returns `i32`.
pub enum Intrinsic {
    MemLoad,
    MemLoad8,
    MemStore,
    MemStore8,
    FdWrite,
    FdRead,
    PathOpen,
    FdClose,
}

/// The intrinsic that a callee name denotes, if any.
pub open spec fn intrinsic_of(n: Seq<char>) -> Option<Intrinsic> {
    if n == "__mem_load"@ {
        Some(Intrinsic::MemLoad)
    } else if n == "__mem_load8"@ {
        Some(Intrinsic::MemLoad8)
    } else if n == "__mem_store"@ {
        Some(Intrinsic::MemStore)
    } else if n == "__mem_store8"@ {
        Some(Intrinsic::MemStore8)
    } else if n == "__fd_write"@ {
        Some(Intrinsic::FdWrite)
    } else if n == "__fd_read"@ {
        Some(Intrinsic::FdRead)
    } else if n == "__path_open"@ {
        Some(Intrinsic::PathOpen)
    } else if n == "__fd_close"@ {
        Some(Intrinsic::FdClose)
    } else {
        None
    }
}

/// How many arguments an intrinsic takes.
pub open spec fn arity_of(k: Intrinsic) -> nat {
    match k {
        Intrinsic::MemLoad | Intrinsic::MemLoad8 | Intrinsic::FdClose => 1,
        Intrinsic::MemStore | Intrinsic::MemStore8 => 2,
        Intrinsic::FdWrite | Intrinsic::FdRead => 4,
        Intrinsic::PathOpen => 9,
    }
}

impl Intrinsic {
    pub fn arity(&self) -> (r: usize)
        ensures
            r == arity_of(*self),
    {
        match self {
            Intrinsic::MemLoad | Intrinsic::MemLoad8 | Intrinsic::FdClose => 1,
            Intrinsic::MemStore | Intrinsic::MemStore8 => 2,
            Intrinsic::FdWrite | Intrinsic::FdRead => 4,
            Intrinsic::PathOpen => 9,
        }
    }
}

/// Looks a callee name up among the intrinsics.
pub fn lookup_intrinsic(name: &String) -> (r: Option<Intrinsic>)
    ensures
        r == intrinsic_of(name@),
{
    if string_is(name, "__mem_load") {
        Some(Intrinsic::MemLoad)
    } else if string_is(name, "__mem_load8") {
        Some(Intrinsic::MemLoad8)
    } else if string_is(name, "__mem_store") {
        Some(Intrinsic::MemStore)
    } else if string_is(name, "__mem_store8") {
        Some(Intrinsic::MemStore8)
    } else if string_is(name, "__fd_write") {
        Some(Intrinsic::FdWrite)
    } else if string_is(name, "__fd_read") {
        Some(Intrinsic::FdRead)
    } else if string_is(name, "__path_open") {
        Some(Intrinsic::PathOpen)
    } else if string_is(name, "__fd_close") {
        Some(Intrinsic::FdClose)
    } else {
        None
    }
}

} // verus!
