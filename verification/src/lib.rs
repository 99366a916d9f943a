//! Reading UEFI firmware variables: the binary codecs for load options and
//! device paths, the naming scheme of firmware variables, and the joining of
//! `BootOrder` with the `BootNNNN` variables into an ordered boot menu.

pub mod backend;
pub mod efiboot;
pub mod efidevicepath;
pub mod efidevicepath_laws;
pub mod efiloadoption;
pub mod efivar;
pub mod guid;
pub mod utf16;
pub mod wire;
