//! Named pipe interface (Unix): the server side reads concatenated
//! notification JSON from a FIFO; the client side writes each
//! notification's JSON into it. The FIFO I/O lives outside the library;
//! held here are the interface's configuration data, its validation, and
//! the permission bits the FIFO is created with.

use crate::error::Error;
use vstd::prelude::*;

verus! {

/// Mathematical content of a [`PipeInterface`].
pub ghost struct PipeInterfaceView {
    pub path: Seq<char>,
    pub group_read: bool,
    pub group_write: bool,
    pub other_read: bool,
    pub other_write: bool,
}

/// Configuration data for the named pipe interface; absent permission
/// options default to off.
pub struct PipeConfigFile {
    pub path: String,
    pub group_read_permission: Option<bool>,
    pub group_write_permission: Option<bool>,
    pub other_read_permission: Option<bool>,
    pub other_write_permission: Option<bool>,
}

/// Data structure to represent the named pipe interface.
#[derive(Debug, Clone)]
pub struct PipeInterface {
    path: String,
    group_read: bool,
    group_write: bool,
    other_read: bool,
    other_write: bool,
}

impl View for PipeInterface {
    type V = PipeInterfaceView;

    closed spec fn view(&self) -> PipeInterfaceView {
        PipeInterfaceView {
            path: self.path@,
            group_read: self.group_read,
            group_write: self.group_write,
            other_read: self.other_read,
            other_write: self.other_write,
        }
    }
}

/// The mode bits the FIFO is created with: owner read, write and execute,
/// plus the enabled group/other read and write bits.
pub open spec fn pipe_mode_bits(
    group_read: bool,
    group_write: bool,
    other_read: bool,
    other_write: bool,
) -> u32 {
    0o700 | (if group_read {
        0o040u32
    } else {
        0
    }) | (if group_write {
        0o020u32
    } else {
        0
    }) | (if other_read {
        0o004u32
    } else {
        0
    }) | (if other_write {
        0o002u32
    } else {
        0
    })
}

impl PipeInterface {
    /// Create a new `PipeInterface`.
    pub fn new(
        path: &str,
        group_read: bool,
        group_write: bool,
        other_read: bool,
        other_write: bool,
    ) -> (r: Self)
        ensures
            r@ == (PipeInterfaceView {
                path: path@,
                group_read,
                group_write,
                other_read,
                other_write,
            }),
    {
        PipeInterface { path: path.to_owned(), group_read, group_write, other_read, other_write }
    }

    /// Return the pipe file path.
    pub fn path(&self) -> (r: &str)
        ensures
            r@ == self@.path,
    {
        self.path.as_str()
    }

    /// Group read permission set.
    pub fn group_read(&self) -> (r: bool)
        ensures
            r == self@.group_read,
    {
        self.group_read
    }

    /// Group write permission set.
    pub fn group_write(&self) -> (r: bool)
        ensures
            r == self@.group_write,
    {
        self.group_write
    }

    /// Other read permission set.
    pub fn other_read(&self) -> (r: bool)
        ensures
            r == self@.other_read,
    {
        self.other_read
    }

    /// Other write permission set.
    pub fn other_write(&self) -> (r: bool)
        ensures
            r == self@.other_write,
    {
        self.other_write
    }

    /// The mode bits to create the FIFO with.
    pub fn mode_bits(&self) -> (r: u32)
        ensures
            r == pipe_mode_bits(
                self@.group_read,
                self@.group_write,
                self@.other_read,
                self@.other_write,
            ),
    {
        0o700u32 | (if self.group_read {
            0o040u32
        } else {
            0u32
        }) | (if self.group_write {
            0o020u32
        } else {
            0u32
        }) | (if self.other_read {
            0o004u32
        } else {
            0u32
        }) | (if self.other_write {
            0o002u32
        } else {
            0u32
        })
    }

    /// Build a `PipeInterface` from configuration data, rejecting an empty
    /// path; absent permission options default to off.
    pub fn from_config(value: &PipeConfigFile) -> (r: Result<PipeInterface, Error>)
        ensures
            match r {
                Ok(i) => {
                    &&& value.path@.len() > 0
                    &&& i@ == (PipeInterfaceView {
                        path: value.path@,
                        group_read: value.group_read_permission == Some(true),
                        group_write: value.group_write_permission == Some(true),
                        other_read: value.other_read_permission == Some(true),
                        other_write: value.other_write_permission == Some(true),
                    })
                },
                Err(e) => {
                    &&& value.path@.len() == 0
                    &&& (e matches Error::InvalidInterfaceConfiguration(m) && m@
                        == "Pipe path is empty"@)
                },
            },
    {
        if value.path.as_str().is_empty() {
            Err(Error::InvalidInterfaceConfiguration("Pipe path is empty".to_owned()))
        } else {
            Ok(
                PipeInterface {
                    path: value.path.clone(),
                    group_read: value.group_read_permission.unwrap_or(false),
                    group_write: value.group_write_permission.unwrap_or(false),
                    other_read: value.other_read_permission.unwrap_or(false),
                    other_write: value.other_write_permission.unwrap_or(false),
                },
            )
        }
    }
}

} // verus!
