//! The error taxonomy of the manager. Underlying causes are carried as plain
//! text, and `message` renders each error the way the command shell prints
//! it.

use vstd::prelude::*;

verus! {

/// Everything that can go wrong while resolving, copying or syncing.
#[derive(Debug)]
pub enum Error {
    /// An external command exited unsuccessfully.
    Command(String),
    /// An input or output operation failed, with its description.
    IoError(String),
    /// A directory could not be created.
    MakeDir { path: String, err: String },
    /// A path's metadata could not be read.
    Metadata(String),
    /// A path's modification time could not be read.
    _ModifiedTime(String),
    /// A directory could not be removed.
    _RemoveDir { path: String, err: String },
    /// A path could not be made absolute and canonical.
    ResolvePath { path: String, err: String },
}

impl Error {
    /// The text the shell prints for this error.
    pub open spec fn message_spec(&self) -> Seq<char> {
        match self {
            Error::Command(c) => "`"@ + c@ + "` failed! Review the output & try again"@,
            Error::IoError(e) => e@,
            Error::MakeDir { path, err } => "Failed to make dir @ `"@ + path@ + "` ("@ + err@
                + ")"@,
            Error::Metadata(p) => "No metadata ("@ + p@ + ")"@,
            Error::_ModifiedTime(p) => "No modified time ("@ + p@ + ")"@,
            Error::_RemoveDir { path, err } => "Failed to remove dir @ `"@ + path@ + "` ("@
                + err@ + ")"@,
            Error::ResolvePath { path, err } => "Failed to resolve `"@ + path@ + "` ("@ + err@
                + ")"@,
        }
    }

    /// Renders the error the way the shell prints it.
    pub fn message(&self) -> (m: String)
        ensures
            m@ == self.message_spec(),
    {
        match self {
            Error::Command(c) => {
                let mut m = "`".to_owned();
                m.append(c.as_str());
                m.append("` failed! Review the output & try again");
                proof {
                    assert(m@ =~= self.message_spec());
                }
                m
            },
            Error::IoError(e) => e.clone(),
            Error::MakeDir { path, err } => {
                let mut m = "Failed to make dir @ `".to_owned();
                m.append(path.as_str());
                m.append("` (");
                m.append(err.as_str());
                m.append(")");
                proof {
                    assert(m@ =~= self.message_spec());
                }
                m
            },
            Error::Metadata(p) => {
                let mut m = "No metadata (".to_owned();
                m.append(p.as_str());
                m.append(")");
                proof {
                    assert(m@ =~= self.message_spec());
                }
                m
            },
            Error::_ModifiedTime(p) => {
                let mut m = "No modified time (".to_owned();
                m.append(p.as_str());
                m.append(")");
                proof {
                    assert(m@ =~= self.message_spec());
                }
                m
            },
            Error::_RemoveDir { path, err } => {
                let mut m = "Failed to remove dir @ `".to_owned();
                m.append(path.as_str());
                m.append("` (");
                m.append(err.as_str());
                m.append(")");
                proof {
                    assert(m@ =~= self.message_spec());
                }
                m
            },
            Error::ResolvePath { path, err } => {
                let mut m = "Failed to resolve `".to_owned();
                m.append(path.as_str());
                m.append("` (");
                m.append(err.as_str());
                m.append(")");
                proof {
                    assert(m@ =~= self.message_spec());
                }
                m
            },
        }
    }
}

} // verus!
