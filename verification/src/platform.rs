//! The operating systems the installer knows how to drive.
use vstd::prelude::*;

verus! {

/// The family of operating system the installer runs on. `Linux` stands
/// for every Unix other than macOS.
#[derive(Clone, Copy, Debug, PartialEq, Eq, Structural)]
pub enum Os {
    Linux,
    MacOs,
    Windows,
}

} // verus!
