//! Reading the health of disks: which devices of the host are physical
//! disks, how a vendor's attributes are to be decoded, which commands a
//! report needs and in what order, and how the answers are judged and shown.
//!
//! Nothing here touches a device or a file. The caller lists the class
//! trees of the host, carries commands to the drive, and prints; what is
//! decided in between is decided here.
pub mod attr;
pub mod cam;
pub mod device;
pub mod drivedb;
pub mod info;
pub mod presets;
pub mod query;
pub mod report;
pub mod text;
