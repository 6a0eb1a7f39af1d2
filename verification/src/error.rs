use vstd::prelude::*;

verus! {

/// The closed set of errors surfaced to callers.
///
/// `IoError` means the byte source ran out before the structure was complete;
/// `InvalidData` is a structural violation with a static detail message.
/// The remaining variants report a missing box or table entry by the
/// identifiers the caller supplied.
#[derive(Debug, Clone, Copy, PartialEq, Eq)]
pub enum Error {
    IoError,
    InvalidData(&'static str),
    BoxNotFound(u32),
    Box2NotFound(u32, u32),
    TrakNotFound(u32),
    BoxInTrakNotFound(u32, u32),
    EntryInStblNotFound(u32, u32, u32),
}

} // verus!
